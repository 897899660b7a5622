//! Putting texts together with a separator, and taking the separator out again.
use vstd::prelude::*;

verus! {

/// The parts one behind the other, with the separator between them.
pub open spec fn joined_with(parts: Seq<Seq<char>>, separator: Seq<char>) -> Seq<char>
    decreases parts.len(),
{
    if parts.len() == 0 {
        seq![]
    } else if parts.len() == 1 {
        parts[0]
    } else {
        joined_with(parts.drop_last(), separator) + separator + parts.last()
    }
}

/// The texts of some strings.
pub open spec fn texts(parts: Seq<&str>) -> Seq<Seq<char>> {
    parts.map_values(|part: &str| part@)
}

/// The texts of some owned strings.
pub open spec fn owned_texts(parts: Seq<String>) -> Seq<Seq<char>> {
    parts.map_values(|part: String| part@)
}

/// The text of a string, where there is one.
pub open spec fn optional_text(text: Option<String>) -> Option<Seq<char>> {
    match text {
        Some(text) => Some(text@),
        None => None,
    }
}

/// The text begins with the separator.
pub open spec fn begins_with(text: Seq<char>, separator: Seq<char>) -> bool {
    separator.len() <= text.len() && text.take(separator.len() as int) == separator
}

/// The text without the separator, wherever it is found on the way from left to right.
pub open spec fn without(text: Seq<char>, separator: Seq<char>) -> Seq<char>
    recommends
        separator.len() > 0,
    decreases text.len(),
{
    if text.len() == 0 || separator.len() == 0 {
        text
    } else if begins_with(text, separator) {
        without(text.skip(separator.len() as int), separator)
    } else {
        seq![text[0]] + without(text.drop_first(), separator)
    }
}

/// Puts the parts together.
pub fn join_with(parts: &[&str], separator: &str) -> (result: String)
    ensures
        result@ == joined_with(texts(parts@), separator@),
{
    let mut result = String::new();
    let mut i: usize = 0;
    let ghost all = texts(parts@);
    assert(all.take(0).len() == 0);
    while i < parts.len()
        invariant
            i <= parts.len(),
            all == texts(parts@),
            result@ == joined_with(all.take(i as int), separator@),
        decreases parts.len() - i,
    {
        let ghost longer = all.take(i + 1);
        assert(longer.drop_last() =~= all.take(i as int));
        assert(longer.last() == parts[i as int]@);
        if i > 0 {
            result.append(separator);
            result.append(parts[i]);
        } else {
            result.append(parts[i]);
            assert(result@ =~= longer[0]);
        }
        i = i + 1;
    }
    assert(all.take(parts.len() as int) =~= all);
    result
}

/// Puts the parts together.
pub fn join_owned_with(parts: &Vec<String>, separator: &str) -> (result: String)
    ensures
        result@ == joined_with(owned_texts(parts@), separator@),
{
    let mut borrowed: Vec<&str> = Vec::new();
    for i in 0..parts.len()
        invariant
            texts(borrowed@) =~= owned_texts(parts@).take(i as int),
    {
        let ghost before = borrowed@;
        borrowed.push(parts[i].as_str());
        assert(texts(borrowed@) =~= texts(before).push(parts[i as int]@));
    }
    assert(texts(borrowed@) =~= owned_texts(parts@));
    join_with(borrowed.as_slice(), separator)
}

/// Takes the separator out.
pub fn remove_all(text: &str, separator: &str) -> (result: String)
    requires
        separator@.len() > 0,
    ensures
        result@ == without(text@, separator@),
{
    let length: usize = text.unicode_len();
    let width: usize = separator.unicode_len();
    let wanted = separator.to_owned();
    let mut result = String::new();
    let mut from: usize = 0;
    let mut at: usize = 0;
    assert(text@.skip(0) =~= text@);
    assert(text@.subrange(0, 0).len() == 0);
    while at < length
        invariant
            from <= at <= length,
            length == text@.len(),
            width == separator@.len(),
            width > 0,
            wanted@ == separator@,
            without(text@, separator@) =~= result@ + text@.subrange(from as int, at as int)
                + without(text@.skip(at as int), separator@),
        decreases length - at,
    {
        let ghost rest = text@.skip(at as int);
        let found = width <= length - at && text.substring_char(at, at + width).to_owned() == wanted;
        assert(width <= length - at ==> rest.take(width as int) =~= text@.subrange(
            at as int,
            at + width,
        ));
        if found {
            result.append(text.substring_char(from, at));
            at = at + width;
            from = at;
            assert(rest.skip(width as int) =~= text@.skip(at as int));
            assert(text@.subrange(from as int, at as int).len() == 0);
        } else {
            at = at + 1;
            assert(rest.drop_first() =~= text@.skip(at as int));
            assert(text@.subrange(from as int, at as int) =~= text@.subrange(
                from as int,
                at - 1,
            ).push(rest[0]));
        }
    }
    result.append(text.substring_char(from, length));
    assert(text@.skip(length as int).len() == 0);
    result
}

/// The separator stands somewhere in the text.
pub open spec fn holds(text: Seq<char>, separator: Seq<char>) -> bool {
    exists|at: int|
        0 <= at <= text.len() - separator.len() && #[trigger] text.subrange(
            at,
            at + separator.len(),
        ) == separator
}

/// The first part stands in front of the others.
pub proof fn lemma_joined_from_first(parts: Seq<Seq<char>>, separator: Seq<char>)
    requires
        parts.len() > 1,
    ensures
        joined_with(parts, separator) == parts[0] + separator + joined_with(
            parts.drop_first(),
            separator,
        ),
    decreases parts.len(),
{
    let rest = parts.drop_first();
    if parts.len() == 2 {
        assert(joined_with(parts.drop_last(), separator) == parts[0]);
        assert(joined_with(rest, separator) == parts[1]);
    } else {
        lemma_joined_from_first(parts.drop_last(), separator);
        assert(parts.drop_last().drop_first() =~= rest.drop_last());
        assert(joined_with(parts, separator) =~= parts[0] + separator + joined_with(
            rest,
            separator,
        ));
    }
}

/// A text in which the separator does not stand keeps its characters up to the separator behind
/// it.
proof fn lemma_without_first(text: Seq<char>, separator: Seq<char>, rest: Seq<char>)
    requires
        separator.len() > 0,
        forall|i: int| 0 < i < separator.len() ==> #[trigger] separator[i] != separator[0],
        !holds(text, separator),
    ensures
        without(text + separator + rest, separator) == text + without(rest, separator),
    decreases text.len(),
{
    let whole = text + separator + rest;
    let width = separator.len() as int;
    if text.len() == 0 {
        assert(whole.take(width) =~= separator);
        assert(whole.skip(width) =~= rest);
        assert(text + without(rest, separator) =~= without(rest, separator));
    } else {
        if begins_with(whole, separator) {
            if width <= text.len() {
                assert(text.subrange(0, 0int + width) =~= whole.take(width));
            } else {
                let overlap = text.len() as int;
                assert(whole.take(width)[overlap] == separator[0]);
            }
        }
        lemma_holds_behind(text, separator);
        lemma_without_first(text.drop_first(), separator, rest);
        assert(whole.drop_first() =~= text.drop_first() + separator + rest);
        assert(seq![text[0]] + (text.drop_first() + without(rest, separator)) =~= text + without(
            rest,
            separator,
        ));
    }
}

/// A text in which the separator does not stand stays as it is.
proof fn lemma_without_nothing(text: Seq<char>, separator: Seq<char>)
    requires
        separator.len() > 0,
        !holds(text, separator),
    ensures
        without(text, separator) == text,
    decreases text.len(),
{
    if text.len() > 0 {
        if begins_with(text, separator) {
            assert(text.subrange(0, 0int + separator.len()) =~= text.take(separator.len() as int));
        }
        lemma_holds_behind(text, separator);
        lemma_without_nothing(text.drop_first(), separator);
        assert(seq![text[0]] + text.drop_first() =~= text);
    }
}

/// What stands behind the first character stands in the text.
proof fn lemma_holds_behind(text: Seq<char>, separator: Seq<char>)
    requires
        text.len() > 0,
        !holds(text, separator),
    ensures
        !holds(text.drop_first(), separator),
{
    let rest = text.drop_first();
    let width = separator.len() as int;
    if holds(rest, separator) {
        let at = choose|at: int|
            0 <= at <= rest.len() - width && #[trigger] rest.subrange(at, at + width) == separator;
        assert(text.subrange(at + 1, at + 1 + width) =~= rest.subrange(at, at + width));
    }
}

/// Taking the separator out of joined parts leaves the parts one behind the other, if none of
/// them holds the separator and the first character of the separator does not occur in it again.
pub proof fn law_separator_is_taken_out(parts: Seq<Seq<char>>, separator: Seq<char>)
    requires
        separator.len() > 0,
        forall|i: int| 0 < i < separator.len() ==> #[trigger] separator[i] != separator[0],
        forall|i: int| 0 <= i < parts.len() ==> !holds(#[trigger] parts[i], separator),
    ensures
        without(joined_with(parts, separator), separator) == joined_with(parts, seq![]),
    decreases parts.len(),
{
    if parts.len() == 1 {
        lemma_without_nothing(parts[0], separator);
    } else if parts.len() > 1 {
        let rest = parts.drop_first();
        assert forall|i: int| 0 <= i < rest.len() implies !holds(#[trigger] rest[i], separator) by {
            assert(rest[i] == parts[i + 1]);
        }
        law_separator_is_taken_out(rest, separator);
        lemma_joined_from_first(parts, separator);
        lemma_joined_from_first(parts, seq![]);
        lemma_without_first(parts[0], separator, joined_with(rest, separator));
        assert(parts[0] + Seq::<char>::empty() =~= parts[0]);
    }
}

/// Joined parts are built up part by part, each whole, with one separator in between.
pub proof fn law_joined_parts_grow_with_each_part(
    parts: Seq<Seq<char>>,
    last: Seq<char>,
    separator: Seq<char>,
)
    ensures
        joined_with(seq![], separator) == Seq::<char>::empty(),
        joined_with(seq![last], separator) == last,
        parts.len() > 0 ==> joined_with(parts.push(last), separator) == joined_with(
            parts,
            separator,
        ) + separator + last,
{
    assert(parts.push(last).drop_last() =~= parts);
}

/// A text in which the separator does not stand stays as it is; where it stands behind such a
/// text, it is taken out there and behind it.
pub proof fn law_only_separators_are_taken_out(
    text: Seq<char>,
    separator: Seq<char>,
    rest: Seq<char>,
)
    requires
        separator.len() > 0,
        forall|i: int| 0 < i < separator.len() ==> #[trigger] separator[i] != separator[0],
        !holds(text, separator),
    ensures
        without(text, separator) == text,
        without(text + separator + rest, separator) == text + without(rest, separator),
{
    lemma_without_nothing(text, separator);
    lemma_without_first(text, separator, rest);
}

/// The text holds the separator exactly where the separator stands between two parts of it.
pub proof fn law_held_separator_stands_between_parts(
    before: Seq<char>,
    separator: Seq<char>,
    behind: Seq<char>,
    text: Seq<char>,
)
    ensures
        holds(before + separator + behind, separator),
        holds(text, separator) ==> exists|at: int|
            0 <= at <= text.len() - separator.len() && text == #[trigger] text.take(at) + separator
                + text.skip(at + separator.len()),
{
    let whole = before + separator + behind;
    let at = before.len() as int;
    assert(whole.subrange(at, at + separator.len()) =~= separator);
    if holds(text, separator) {
        let at = choose|at: int|
            0 <= at <= text.len() - separator.len() && #[trigger] text.subrange(
                at,
                at + separator.len(),
            ) == separator;
        assert(text =~= text.take(at) + separator + text.skip(at + separator.len())) by {
            assert forall|i: int| at <= i < at + separator.len() implies text[i] == separator[i
                - at] by {
                assert(text.subrange(at, at + separator.len())[i - at] == text[i]);
            }
        }
    }
}

/// The texts of strings are theirs, one by one.
pub proof fn law_texts_are_those_of_the_strings(
    borrowed: Seq<&str>,
    owned: Seq<String>,
    one: String,
)
    ensures
        texts(borrowed).len() == borrowed.len(),
        forall|i: int| 0 <= i < borrowed.len() ==> #[trigger] texts(borrowed)[i] == borrowed[i]@,
        owned_texts(owned).len() == owned.len(),
        forall|i: int| 0 <= i < owned.len() ==> #[trigger] owned_texts(owned)[i] == owned[i]@,
        optional_text(Some(one)) == Some(one@),
        optional_text(None) is None,
{
}

} // verus!
