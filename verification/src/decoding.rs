use vstd::prelude::*;

use crate::error::DecodingError;
use crate::extract::{
    decode, extension_for, field_named, supported_extension, Draft, Field, PartContent,
    RecipeIngestionRequest, StepsContent,
};
use crate::link::parsed_url;
use crate::models::{lemma_line_format, line_of, says, IngredientLine};
use crate::number::u32_of;
use crate::templates::StepsPartial;
use crate::values::{last_some, lemma_last_some, somes, ImageContent};

verus! {

/// The kind of steps that the name of a part stands for, if it is the name of
/// one of the three steps fields.
pub open spec fn steps_field(part: PartContent) -> Option<StepsPartial> {
    let field = match part {
        PartContent::Text { name, .. } => field_named(name),
        PartContent::Binary { name, .. } => field_named(name),
        PartContent::Ingredient(_) => None,
    };
    match field {
        Some(Field::Text) => Some(StepsPartial::Text),
        Some(Field::Url) => Some(StepsPartial::Url),
        Some(Field::Image) => Some(StepsPartial::Image),
        _ => None,
    }
}

/// Whether a part is in order by itself: it would be accepted as the first
/// part of a submission.
pub open spec fn in_order(part: PartContent) -> bool {
    Draft::empty().accept(part) is Ok
}

/// Whether every part is in order by itself.
pub open spec fn all_in_order(parts: Seq<PartContent>) -> bool {
    forall|i: int| 0 <= i < parts.len() ==> in_order(#[trigger] parts[i])
}

/// The name that a part gives, if it gives one.
pub open spec fn name_in(part: PartContent) -> Option<Seq<char>> {
    match part {
        PartContent::Text { name, value } => if field_named(name) == Some(Field::Name) {
            Some(value)
        } else {
            None
        },
        _ => None,
    }
}

/// The rations that a part gives, if it gives any.
pub open spec fn rations_in(part: PartContent) -> Option<u32> {
    match part {
        PartContent::Text { name, value } => if field_named(name) == Some(Field::Rations) {
            u32_of(value)
        } else {
            None
        },
        _ => None,
    }
}

/// The thumbnail that a part gives, if it gives one.
pub open spec fn thumbnail_in(part: PartContent) -> Option<ImageContent> {
    match part {
        PartContent::Binary { name, content_type, bytes } => if field_named(name) == Some(
            Field::Thumbnail,
        ) {
            match extension_for(content_type) {
                Ok(extension) => Some((bytes, extension)),
                Err(_) => None,
            }
        } else {
            None
        },
        _ => None,
    }
}

/// The ingredient that a part gives, if it gives one.
pub open spec fn line_in(part: PartContent) -> Option<IngredientLine> {
    match part {
        PartContent::Text { name, value } => if field_named(name) == Some(Field::Ingredient) {
            line_of(value)
        } else {
            None
        },
        PartContent::Ingredient(line) => if line.quantity > 0 {
            Some(line)
        } else {
            None
        },
        _ => None,
    }
}

/// The steps that a part gives, if it gives any.
pub open spec fn steps_in(part: PartContent) -> Option<StepsContent> {
    match part {
        PartContent::Text { name, value } => match field_named(name) {
            Some(Field::Text) => Some(StepsContent::Text(value)),
            Some(Field::Url) => match parsed_url(value) {
                Some(link) => Some(StepsContent::Url(link)),
                None => None,
            },
            _ => None,
        },
        PartContent::Binary { name, content_type, bytes } => if field_named(name) == Some(
            Field::Image,
        ) {
            match extension_for(content_type) {
                Ok(extension) => Some(StepsContent::Image(bytes, extension)),
                Err(_) => None,
            }
        } else {
            None
        },
        PartContent::Ingredient(_) => None,
    }
}

/// What each part gives of one field, part by part.
pub open spec fn each<T>(parts: Seq<PartContent>, of: spec_fn(PartContent) -> Option<T>) -> Seq<
    Option<T>,
> {
    Seq::new(parts.len(), |i: int| of(parts[i]))
}

/// The kinds of the steps fields that the parts name, in order.
pub open spec fn fields_set(parts: Seq<PartContent>) -> Seq<StepsPartial> {
    somes(each(parts, |part: PartContent| steps_field(part)))
}

/// The steps that the parts give, in order.
pub open spec fn steps_given(parts: Seq<PartContent>) -> Seq<StepsContent> {
    somes(each(parts, |part: PartContent| steps_in(part)))
}

/// The ingredients that the parts give, in order.
pub open spec fn lines_given(parts: Seq<PartContent>) -> Seq<IngredientLine> {
    somes(each(parts, |part: PartContent| line_in(part)))
}

/// The name that the parts give last.
pub open spec fn name_given(parts: Seq<PartContent>) -> Option<Seq<char>> {
    last_some(each(parts, |part: PartContent| name_in(part)))
}

/// The rations that the parts give last.
pub open spec fn rations_given(parts: Seq<PartContent>) -> Option<u32> {
    last_some(each(parts, |part: PartContent| rations_in(part)))
}

/// The thumbnail that the parts give last.
pub open spec fn thumbnail_given(parts: Seq<PartContent>) -> Option<ImageContent> {
    last_some(each(parts, |part: PartContent| thumbnail_in(part)))
}

/// All that the parts give: the last name, the last rations, the last
/// thumbnail, every ingredient in order, and the last steps.
pub open spec fn gathered(parts: Seq<PartContent>) -> Draft {
    Draft {
        name: name_given(parts),
        rations: rations_given(parts),
        thumbnail: thumbnail_given(parts),
        ingredients: lines_given(parts),
        steps: last_some(each(parts, |part: PartContent| steps_in(part))),
    }
}

/// What a draft is after a part that is in order and brings no second steps.
pub open spec fn joined_by(draft: Draft, part: PartContent) -> Draft {
    Draft {
        name: if name_in(part) is Some {
            name_in(part)
        } else {
            draft.name
        },
        rations: if rations_in(part) is Some {
            rations_in(part)
        } else {
            draft.rations
        },
        thumbnail: if thumbnail_in(part) is Some {
            thumbnail_in(part)
        } else {
            draft.thumbnail
        },
        ingredients: match line_in(part) {
            Some(line) => draft.ingredients.push(line),
            None => draft.ingredients,
        },
        steps: if steps_in(part) is Some {
            steps_in(part)
        } else {
            draft.steps
        },
    }
}

/// How a part fares with any draft. A part that is not in order by itself is
/// turned down for the same reason whatever was read before. A part that is in
/// order is turned down only where it brings steps to a draft that has steps;
/// otherwise what it gives joins the draft. A part is named as one of the
/// steps fields and is in order exactly if it gives steps, of the kind that
/// its name stands for.
pub proof fn lemma_accept(draft: Draft, part: PartContent)
    ensures
        !in_order(part) ==> draft.accept(part) == Draft::empty().accept(part),
        in_order(part) && steps_in(part) is Some && draft.steps is Some ==> draft.accept(part)
            == Err::<Draft, _>(DecodingError::ConflictingStepsVariant),
        in_order(part) && !(steps_in(part) is Some && draft.steps is Some) ==> draft.accept(part)
            == Ok::<_, DecodingError>(joined_by(draft, part)),
        in_order(part) ==> (steps_in(part) is Some <==> steps_field(part) is Some),
        in_order(part) && steps_in(part) is Some ==> steps_field(part) == Some(
            steps_in(part)->0.kind(),
        ),
        draft.accept(part) is Ok ==> in_order(part),
{
    let first = Draft::empty();
    match part {
        PartContent::Text { name, value } => {
            assert(draft.accept(part) == draft.with_text(name, value));
            assert(first.accept(part) == first.with_text(name, value));
        },
        PartContent::Binary { name, content_type, bytes } => {
            assert(draft.accept(part) == draft.with_binary(name, content_type, bytes));
            assert(first.accept(part) == first.with_binary(name, content_type, bytes));
        },
        PartContent::Ingredient(line) => {},
    }
}

/// Reading a sequence of parts is reading all but the last, then the last.
pub proof fn lemma_scan_last(draft: Draft, parts: Seq<PartContent>)
    requires
        parts.len() > 0,
    ensures
        draft.scan(parts) == match draft.scan(parts.drop_last()) {
            Ok(read) => read.accept(parts.last()),
            Err(e) => Err(e),
        },
    decreases parts.len(),
{
    if parts.len() == 1 {
        assert(parts.drop_last().len() == 0);
        assert(parts.drop_first().len() == 0);
        assert(parts[0] == parts.last());
        assert(draft.scan(parts.drop_last()) == Ok::<_, DecodingError>(draft));
        match draft.accept(parts[0]) {
            Ok(next) => {
                assert(next.scan(parts.drop_first()) == Ok::<_, DecodingError>(next));
            },
            Err(_) => {},
        }
    } else {
        let rest = parts.drop_first();
        assert(rest.drop_last() =~= parts.drop_last().drop_first());
        assert(parts.drop_last()[0] == parts[0]);
        assert(rest.last() == parts.last());
        let init = parts.drop_last();
        assert(init.drop_first() =~= rest.drop_last());
        match draft.accept(parts[0]) {
            Ok(next) => {
                lemma_scan_last(next, rest);
                assert(draft.scan(init) == next.scan(init.drop_first()));
            },
            Err(_) => {
                assert(draft.scan(init) is Err);
            },
        }
    }
}

/// A submission that is read to its end holds only parts that are in order.
pub proof fn lemma_read_means_in_order(parts: Seq<PartContent>)
    requires
        Draft::empty().scan(parts) is Ok,
    ensures
        all_in_order(parts),
    decreases parts.len(),
{
    if parts.len() > 0 {
        let init = parts.drop_last();
        lemma_scan_last(Draft::empty(), parts);
        lemma_read_means_in_order(init);
        lemma_accept(Draft::empty().scan(init)->Ok_0, parts.last());
        assert forall|i: int| 0 <= i < parts.len() implies in_order(#[trigger] parts[i]) by {
            if i < init.len() {
                assert(parts[i] == init[i]);
            }
        }
    }
}

/// What the parts before the last give of a field is what all parts give of
/// it, without the last.
proof fn lemma_each_init<T>(parts: Seq<PartContent>, of: spec_fn(PartContent) -> Option<T>)
    requires
        parts.len() > 0,
    ensures
        each(parts, of).drop_last() == each(parts.drop_last(), of),
        each(parts, of).last() == of(parts.last()),
{
    assert(each(parts, of).drop_last() =~= each(parts.drop_last(), of));
}

/// Where every part is in order by itself, reading the parts fails only on
/// steps that come a second time, and otherwise gathers what the parts give.
pub proof fn lemma_scan_in_order(parts: Seq<PartContent>)
    requires
        all_in_order(parts),
    ensures
        Draft::empty().scan(parts) == if steps_given(parts).len() >= 2 {
            Err::<Draft, _>(DecodingError::ConflictingStepsVariant)
        } else {
            Ok::<_, DecodingError>(gathered(parts))
        },
        fields_set(parts).len() == steps_given(parts).len(),
        forall|i: int|
            0 <= i < fields_set(parts).len() ==> fields_set(parts)[i] == (
            #[trigger] steps_given(parts)[i]).kind(),
    decreases parts.len(),
{
    if parts.len() == 0 {
        assert(gathered(parts).ingredients =~= Seq::empty());
    } else {
        let init = parts.drop_last();
        let last = parts.last();
        assert forall|i: int| 0 <= i < init.len() implies in_order(#[trigger] init[i]) by {
            assert(init[i] == parts[i]);
        }
        lemma_scan_in_order(init);
        lemma_scan_last(Draft::empty(), parts);
        lemma_each_init(parts, |part: PartContent| steps_field(part));
        lemma_each_init(parts, |part: PartContent| steps_in(part));
        lemma_each_init(parts, |part: PartContent| line_in(part));
        lemma_each_init(parts, |part: PartContent| name_in(part));
        lemma_each_init(parts, |part: PartContent| rations_in(part));
        lemma_each_init(parts, |part: PartContent| thumbnail_in(part));
        lemma_last_some(each(init, |part: PartContent| steps_in(part)));
        assert(in_order(last));
        if steps_given(init).len() < 2 {
            lemma_accept(gathered(init), last);
            if !(steps_in(last) is Some && gathered(init).steps is Some) {
                assert(joined_by(gathered(init), last).ingredients =~= gathered(
                    parts,
                ).ingredients);
                assert(joined_by(gathered(init), last) == gathered(parts));
            }
        } else {
            lemma_accept(Draft::empty(), last);
        }
    }
}

/// The whole of what decoding does with parts that are each in order: two or
/// more steps are a conflict, and otherwise the submission is what the parts
/// give, if that lacks nothing.
pub proof fn lemma_decode_in_order(parts: Seq<PartContent>)
    requires
        all_in_order(parts),
    ensures
        decode(parts) == if fields_set(parts).len() >= 2 {
            Err::<RecipeIngestionRequest, _>(DecodingError::ConflictingStepsVariant)
        } else {
            gathered(parts).finish()
        },
{
    lemma_scan_in_order(parts);
}

/// A submission in which exactly one of the three steps fields is set, whose
/// parts are each in order, and which gives rations and, last, a name that is
/// not empty, is decoded; the steps of the request are those that the one part
/// gave, of the kind that its name stands for; and the request holds the last
/// name, the last rations, the last thumbnail and every ingredient in order.
pub proof fn lemma_one_steps_field_decodes(parts: Seq<PartContent>)
    requires
        all_in_order(parts),
        fields_set(parts).len() == 1,
        name_given(parts) matches Some(name) && name.len() > 0,
        rations_given(parts) is Some,
    ensures
        decode(parts) matches Ok(request) && {
            &&& request.steps == steps_given(parts)[0]
            &&& request.steps.kind() == fields_set(parts)[0]
            &&& Some(request.name) == name_given(parts)
            &&& Some(request.rations) == rations_given(parts)
            &&& request.thumbnail == thumbnail_given(parts)
            &&& request.ingredients == lines_given(parts)
        },
{
    lemma_scan_in_order(parts);
    lemma_last_some(each(parts, |part: PartContent| steps_in(part)));
}

/// A submission that is decoded has exactly one of the three steps fields
/// set, and the steps of the request are of the kind that this field stands
/// for.
pub proof fn lemma_decoded_has_one_steps_field(parts: Seq<PartContent>)
    requires
        decode(parts) is Ok,
    ensures
        all_in_order(parts),
        fields_set(parts).len() == 1,
        decode(parts)->Ok_0.steps.kind() == fields_set(parts)[0],
        decode(parts)->Ok_0.ingredients == lines_given(parts),
{
    lemma_read_means_in_order(parts);
    lemma_scan_in_order(parts);
    lemma_last_some(each(parts, |part: PartContent| steps_in(part)));
}

/// A submission in which two or more of the three steps fields are set is
/// never decoded, whichever fields they are and in whatever order they come;
/// where its parts are each in order, it is turned down as a conflict of
/// steps.
pub proof fn lemma_two_steps_fields_conflict(parts: Seq<PartContent>)
    requires
        fields_set(parts).len() >= 2,
    ensures
        decode(parts) is Err,
        all_in_order(parts) ==> decode(parts) == Err::<RecipeIngestionRequest, _>(
            DecodingError::ConflictingStepsVariant,
        ),
{
    if decode(parts) is Ok {
        lemma_decoded_has_one_steps_field(parts);
    }
    if all_in_order(parts) {
        lemma_scan_in_order(parts);
    }
}

/// A submission in which none of the three steps fields is set is never
/// decoded; where its parts are each in order, it is turned down as
/// incomplete, with the steps among the fields that are missing.
pub proof fn lemma_no_steps_field_is_incomplete(parts: Seq<PartContent>)
    requires
        fields_set(parts).len() == 0,
    ensures
        decode(parts) is Err,
        all_in_order(parts) ==> (decode(parts) matches Err(
            DecodingError::IncompleteSubmission(missing),
        ) && missing.steps && missing == gathered(parts).missing()),
{
    if decode(parts) is Ok {
        lemma_decoded_has_one_steps_field(parts);
    }
    if all_in_order(parts) {
        lemma_scan_in_order(parts);
        lemma_last_some(each(parts, |part: PartContent| steps_in(part)));
    }
}

/// Reading a sequence of parts is reading its first `n` parts, then the rest.
pub proof fn lemma_scan_split(draft: Draft, parts: Seq<PartContent>, n: int)
    requires
        0 <= n <= parts.len(),
    ensures
        draft.scan(parts) == match draft.scan(parts.take(n)) {
            Ok(read) => read.scan(parts.skip(n)),
            Err(e) => Err(e),
        },
    decreases n,
{
    if n == 0 {
        assert(parts.take(0).len() == 0);
        assert(parts.skip(0) =~= parts);
    } else {
        let rest = parts.drop_first();
        assert(parts.take(n)[0] == parts[0]);
        assert(parts.take(n).drop_first() =~= rest.take(n - 1));
        assert(parts.skip(n) =~= rest.skip(n - 1));
        match draft.accept(parts[0]) {
            Ok(next) => {
                lemma_scan_split(next, rest, n - 1);
            },
            Err(_) => {},
        }
    }
}

/// Whether a part is a line of text under the name of the ingredients that
/// is not of the form name, positive quantity, unit.
pub open spec fn malformed_line(part: PartContent) -> bool {
    part matches PartContent::Text { name, value } && field_named(name) == Some(Field::Ingredient)
        && forall|line: IngredientLine| !says(value, line)
}

/// One ingredient line that is not of the form name, positive quantity, unit
/// has the whole submission turned down, whatever else it holds: no request
/// with only some of the ingredients is handed out. Where the parts before
/// the line are accepted, the submission is turned down as holding an invalid
/// ingredient line.
pub proof fn lemma_malformed_line_rejects(parts: Seq<PartContent>, at: int)
    requires
        0 <= at < parts.len(),
        malformed_line(parts[at]),
    ensures
        decode(parts) is Err,
        Draft::empty().scan(parts.take(at)) is Ok ==> decode(parts) == Err::<
            RecipeIngestionRequest,
            _,
        >(DecodingError::InvalidIngredientLine),
{
    let part = parts[at];
    let value = part->Text_value;
    match line_of(value) {
        Some(line) => {
            lemma_line_format(value, line);
        },
        None => {},
    }
    lemma_scan_split(Draft::empty(), parts, at);
    match Draft::empty().scan(parts.take(at)) {
        Ok(read) => {
            let rest = parts.skip(at);
            assert(rest[0] == part);
            lemma_accept(read, part);
            assert(Draft::empty().accept(part) == Err::<Draft, _>(
                DecodingError::InvalidIngredientLine,
            ));
        },
        Err(_) => {},
    }
}

/// Decoding depends on the parts alone: a submission that was turned down is
/// turned down again, for the same reason, as often as the same parts are
/// submitted.
pub proof fn lemma_rejection_repeats(
    first: Seq<PartContent>,
    again: Seq<PartContent>,
    reason: DecodingError,
)
    requires
        first =~= again,
        decode(first) == Err::<RecipeIngestionRequest, _>(reason),
    ensures
        decode(again) == Err::<RecipeIngestionRequest, _>(reason),
{
}

/// Every request that decoding hands out is valid: its name is not empty,
/// each of its quantities is positive, and its images have the extension of
/// a supported content type.
pub proof fn lemma_decoded_is_valid(parts: Seq<PartContent>)
    requires
        decode(parts) is Ok,
    ensures
        decode(parts)->Ok_0.valid(),
{
    lemma_read_means_in_order(parts);
    lemma_scan_in_order(parts);
    lemma_given_is_valid(parts);
}

/// What parts that are each in order give is valid: every quantity is
/// positive, and every image has a supported extension.
proof fn lemma_given_is_valid(parts: Seq<PartContent>)
    ensures
        forall|i: int|
            0 <= i < lines_given(parts).len() ==> (#[trigger] lines_given(parts)[i]).quantity > 0,
        thumbnail_given(parts) matches Some(image) ==> supported_extension(image.1),
        last_some(each(parts, |part: PartContent| steps_in(part))) matches Some(
            StepsContent::Image(_, extension),
        ) ==> supported_extension(extension),
    decreases parts.len(),
{
    if parts.len() > 0 {
        lemma_given_is_valid(parts.drop_last());
        lemma_each_init(parts, |part: PartContent| steps_in(part));
        lemma_each_init(parts, |part: PartContent| line_in(part));
        lemma_each_init(parts, |part: PartContent| thumbnail_in(part));
        lemma_line_is_positive(parts.last());
    }
}

/// The ingredient that a part gives has a positive quantity.
proof fn lemma_line_is_positive(part: PartContent)
    ensures
        line_in(part) matches Some(line) ==> line.quantity > 0,
{
}

} // verus!
