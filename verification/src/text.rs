//! Text as sequences of characters: cutting, joining, trimming and numbers.

use vstd::prelude::*;

verus! {

/// `String::push` appends one character to the end of the string.
pub assume_specification[ String::push ](string: &mut String, ch: char)
    ensures
        final(string)@ == old(string)@.push(ch),
;

/// The text that `String::from_utf8_lossy` makes of bytes.
pub uninterp spec fn lossy_spec(bytes: Seq<u8>) -> Seq<char>;

/// `String::from_utf8_lossy` reads bytes as UTF-8, with replacement characters in
/// place of what is not. Valid UTF-8 is read as the text that it encodes.
#[verifier::external_body]
pub(crate) fn lossy(bytes: &[u8]) -> (text: String)
    ensures
        text@ == lossy_spec(bytes@),
        vstd::utf8::valid_utf8(bytes@) ==> text@ == vstd::utf8::decode_utf8(bytes@),
{
    String::from_utf8_lossy(bytes).into_owned()
}

/// How the error reads that `String::from_utf8` gives for bytes that are no UTF-8.
pub uninterp spec fn utf8_error_spec(bytes: Seq<u8>) -> Seq<char>;

/// What `String::from_utf8` makes of bytes: the text that they encode, or an error.
pub open spec fn utf8_spec(bytes: Seq<u8>) -> Result<Seq<char>, Seq<char>> {
    if vstd::utf8::valid_utf8(bytes) {
        Ok(vstd::utf8::decode_utf8(bytes))
    } else {
        Err(utf8_error_spec(bytes))
    }
}

/// `String::from_utf8` reads bytes as UTF-8, or says where they are not.
#[verifier::external_body]
pub(crate) fn from_utf8(bytes: Vec<u8>) -> (result: Result<String, String>)
    ensures
        match result {
            Ok(text) => vstd::utf8::valid_utf8(bytes@) && text@ == vstd::utf8::decode_utf8(bytes@),
            Err(error) => !vstd::utf8::valid_utf8(bytes@) && error@ == utf8_error_spec(bytes@),
        },
{
    String::from_utf8(bytes).map_err(|error| error.to_string())
}

/// The text that the `Debug` formatting of `str` makes of a text.
pub uninterp spec fn quoted_spec(s: Seq<char>) -> Seq<char>;

/// The `Debug` formatting of `str`: the text in double quotes, with escapes.
#[verifier::external_body]
pub(crate) fn quoted(value: &str) -> (text: String)
    ensures
        text@ == quoted_spec(value@),
{
    format!("{:?}", value)
}

/// The characters of a list of strings.
pub open spec fn views(list: Seq<String>) -> Seq<Seq<char>> {
    list.map_values(|item: String| item@)
}

/// An optional text, as characters.
pub open spec fn optional_view(value: Option<String>) -> Option<Seq<char>> {
    match value {
        Some(value) => Some(value@),
        None => None,
    }
}

/// An optional text, as characters.
pub open spec fn str_view(value: Option<&str>) -> Option<Seq<char>> {
    match value {
        Some(value) => Some(value@),
        None => None,
    }
}

/// Whether two texts hold the same characters.
pub fn same(left: &str, right: &str) -> (equal: bool)
    ensures
        equal == (left@ == right@),
{
    left.to_owned() == right.to_owned()
}

/// An owned copy of a text.
pub fn owned(value: &str) -> (copy: String)
    ensures
        copy@ == value@,
{
    value.to_owned()
}

/// An owned copy of a list of texts.
pub fn copies(list: &Vec<String>) -> (copy: Vec<String>)
    ensures
        views(copy@) == views(list@),
{
    let mut copy: Vec<String> = Vec::new();
    let mut index: usize = 0;
    while index < list.len()
        invariant
            index <= list@.len(),
            views(copy@) == views(list@).take(index as int),
        decreases list@.len() - index,
    {
        let ghost before = copy@;
        copy.push(list[index].clone());
        proof {
            assert(views(copy@) =~= views(before).push(list@[index as int]@));
            assert(views(list@).take(index + 1) =~= views(list@).take(index as int).push(
                list@[index as int]@,
            ));
        }
        index += 1;
    }
    proof {
        assert(views(list@).take(index as int) =~= views(list@));
    }
    copy
}

/// The characters of a text.
pub fn characters(value: &str) -> (chars: Vec<char>)
    ensures
        chars@ == value@,
{
    let mut chars: Vec<char> = Vec::new();
    for character in iter: value.chars()
        invariant
            chars@ == iter.seq().take(iter.index()),
            iter.seq() == value@,
    {
        chars.push(character);
    }
    chars
}

/// The text made of the characters from `from` up to `to`.
pub fn slice_text(chars: &Vec<char>, from: usize, to: usize) -> (result: String)
    requires
        from <= to <= chars@.len(),
    ensures
        result@ == chars@.subrange(from as int, to as int),
{
    let mut result = String::new();
    let mut index: usize = from;
    while index < to
        invariant
            from <= index <= to <= chars@.len(),
            result@ == chars@.subrange(from as int, index as int),
        decreases to - index,
    {
        result.push(chars[index]);
        index += 1;
    }
    result
}

// ---------------------------------------------------------------------------
// Searching and cutting
// ---------------------------------------------------------------------------

/// The index of the first `wanted` at or behind `from`; the length if none.
pub open spec fn find_from(s: Seq<char>, wanted: char, from: int) -> int
    decreases s.len() - from,
{
    if from < 0 || from >= s.len() {
        s.len() as int
    } else if s[from] == wanted {
        from
    } else {
        find_from(s, wanted, from + 1)
    }
}

/// What stands before and behind the first `wanted`, if it occurs.
pub open spec fn split_once_spec(s: Seq<char>, wanted: char) -> Option<(Seq<char>, Seq<char>)> {
    let at = find_from(s, wanted, 0);
    if at < s.len() {
        Some((s.take(at), s.skip(at + 1)))
    } else {
        None
    }
}

proof fn lemma_find_from(s: Seq<char>, wanted: char, from: int)
    requires
        0 <= from <= s.len(),
    ensures
        from <= find_from(s, wanted, from) <= s.len(),
        find_from(s, wanted, from) < s.len() ==> s[find_from(s, wanted, from)] == wanted,
        forall|i: int| from <= i < find_from(s, wanted, from) ==> s[i] != wanted,
    decreases s.len() - from,
{
    if from < s.len() && s[from] != wanted {
        lemma_find_from(s, wanted, from + 1);
    }
}

/// A text holds a character exactly if the search for it ends inside.
pub proof fn lemma_find_contains(s: Seq<char>, wanted: char)
    ensures
        s.contains(wanted) == (find_from(s, wanted, 0) < s.len()),
        0 <= find_from(s, wanted, 0) <= s.len(),
{
    lemma_find_from(s, wanted, 0);
}

fn find_char(chars: &Vec<char>, wanted: char, from: usize) -> (at: usize)
    requires
        from <= chars@.len(),
    ensures
        at == find_from(chars@, wanted, from as int),
        from <= at <= chars@.len(),
{
    let mut at: usize = from;
    while at < chars.len() && chars[at] != wanted
        invariant
            from <= at <= chars@.len(),
            find_from(chars@, wanted, from as int) == find_from(chars@, wanted, at as int),
        decreases chars@.len() - at,
    {
        at += 1;
    }
    at
}

/// Whether the character occurs in the text.
pub fn contains_char(value: &str, wanted: char) -> (found: bool)
    ensures
        found == value@.contains(wanted),
{
    let chars = characters(value);
    proof {
        lemma_find_contains(chars@, wanted);
    }
    find_char(&chars, wanted, 0) < chars.len()
}

/// Cuts a text at the first `wanted`.
pub fn split_once(value: &str, wanted: char) -> (parts: Option<(String, String)>)
    ensures
        match parts {
            Some((before, behind)) => split_once_spec(value@, wanted) == Some((before@, behind@)),
            None => split_once_spec(value@, wanted) is None,
        },
{
    let chars = characters(value);
    let at: usize = find_char(&chars, wanted, 0);
    if at < chars.len() {
        let before = slice_text(&chars, 0, at);
        let behind = slice_text(&chars, at + 1, chars.len());
        proof {
            assert(before@ =~= value@.take(at as int));
            assert(behind@ =~= value@.skip(at + 1));
        }
        Some((before, behind))
    } else {
        None
    }
}

/// The parts of a text between the separators, empty ones too.
pub open spec fn split_spec(s: Seq<char>, separator: char) -> Seq<Seq<char>>
    decreases s.len(),
{
    let at = find_from(s, separator, 0);
    if 0 <= at < s.len() {
        seq![s.take(at)] + split_spec(s.skip(at + 1), separator)
    } else {
        seq![s]
    }
}

/// Cuts a text at every separator.
pub fn split(value: &str, separator: char) -> (parts: Vec<String>)
    ensures
        views(parts@) == split_spec(value@, separator),
{
    let chars = characters(value);
    let mut parts: Vec<String> = Vec::new();
    let mut from: usize = 0;
    proof {
        assert(value@.skip(0) =~= value@);
        assert(views(parts@) + split_spec(value@, separator) =~= split_spec(value@, separator));
    }
    loop
        invariant
            chars@ == value@,
            from <= chars@.len(),
            views(parts@) + split_spec(value@.skip(from as int), separator) == split_spec(
                value@,
                separator,
            ),
        decreases chars@.len() - from,
    {
        let at: usize = find_char(&chars, separator, from);
        let ghost rest = value@.skip(from as int);
        proof {
            lemma_find_shift(value@, separator, from as int, 0);
        }
        let ghost before = parts@;
        if at < chars.len() {
            parts.push(slice_text(&chars, from, at));
            proof {
                assert(parts@.last()@ =~= rest.take(at - from));
                assert(rest.skip(at - from + 1) =~= value@.skip(at + 1));
                assert(views(parts@) =~= views(before).push(rest.take(at - from)));
                assert(views(parts@) + split_spec(value@.skip(at + 1), separator) =~= views(before) + (
                seq![rest.take(at - from)] + split_spec(value@.skip(at + 1), separator)));
            }
            from = at + 1;
        } else {
            parts.push(slice_text(&chars, from, chars.len()));
            proof {
                assert(parts@.last()@ =~= rest);
                assert(views(parts@) =~= views(before) + seq![rest]);
            }
            return parts;
        }
    }
}

proof fn lemma_find_shift(s: Seq<char>, wanted: char, from: int, at: int)
    requires
        0 <= from <= s.len(),
        0 <= at <= s.len() - from,
    ensures
        find_from(s.skip(from), wanted, at) + from == find_from(s, wanted, from + at),
    decreases s.len() - from - at,
{
    if at < s.len() - from && s[from + at] != wanted {
        lemma_find_shift(s, wanted, from, at + 1);
    }
}

/// The list without its empty texts.
pub open spec fn non_empty(list: Seq<Seq<char>>) -> Seq<Seq<char>>
    decreases list.len(),
{
    if list.len() == 0 {
        seq![]
    } else if list.last().len() == 0 {
        non_empty(list.drop_last())
    } else {
        non_empty(list.drop_last()).push(list.last())
    }
}

/// The non-empty parts of a comma separated list.
pub open spec fn list_items(s: Seq<char>) -> Seq<Seq<char>> {
    non_empty(split_spec(s, ','))
}

/// Reads a comma separated list, leaving out empty items.
pub fn parse_list(value: &str) -> (items: Vec<String>)
    ensures
        views(items@) == list_items(value@),
{
    let parts = split(value, ',');
    let mut items: Vec<String> = Vec::new();
    let mut index: usize = 0;
    proof {
        assert(views(items@) =~= non_empty(views(parts@).take(0)));
    }
    while index < parts.len()
        invariant
            index <= parts@.len(),
            views(items@) == non_empty(views(parts@).take(index as int)),
        decreases parts@.len() - index,
    {
        let ghost before = items@;
        proof {
            let step = views(parts@).take(index + 1);
            assert(step.drop_last() =~= views(parts@).take(index as int));
            assert(step.last() == parts@[index as int]@);
        }
        if !parts[index].as_str().is_empty() {
            items.push(parts[index].clone());
            proof {
                assert(views(items@) =~= views(before).push(parts@[index as int]@));
            }
        }
        index += 1;
    }
    proof {
        assert(views(parts@).take(index as int) =~= views(parts@));
    }
    items
}

proof fn lemma_find_is(s: Seq<char>, wanted: char, from: int, at: int)
    requires
        0 <= from <= at <= s.len(),
        at < s.len() ==> s[at] == wanted,
        forall|i: int| from <= i < at ==> s[i] != wanted,
    ensures
        find_from(s, wanted, from) == at,
    decreases s.len() - from,
{
    if from < at {
        lemma_find_is(s, wanted, from + 1, at);
    }
}

proof fn lemma_split_appended(front: Seq<char>, last: Seq<char>, separator: char)
    requires
        !last.contains(separator),
    ensures
        split_spec(front + seq![separator] + last, separator) == split_spec(front, separator).push(
            last,
        ),
        split_spec(last, separator) == seq![last],
    decreases front.len(),
{
    let s = front + seq![separator] + last;
    lemma_find_from(front, separator, 0);
    lemma_find_from(last, separator, 0);
    let at = find_from(front, separator, 0);
    assert(s[at] == separator);
    assert forall|i: int| 0 <= i < at implies s[i] != separator by {
        assert(s[i] == front[i]);
    }
    lemma_find_is(s, separator, 0, at);
    if at < front.len() {
        lemma_split_appended(front.skip(at + 1), last, separator);
        assert(s.take(at) =~= front.take(at));
        assert(s.skip(at + 1) =~= front.skip(at + 1) + seq![separator] + last);
        assert(split_spec(s, separator) =~= split_spec(front, separator).push(last));
    } else {
        assert(s.take(at) =~= front);
        assert(s.skip(at + 1) =~= last);
        assert(find_from(last, separator, 0) == last.len());
        assert(split_spec(last, separator) =~= seq![last]);
        assert(split_spec(front, separator) =~= seq![front]);
        assert(split_spec(s, separator) == seq![front] + split_spec(last, separator));
        assert(split_spec(s, separator) =~= split_spec(front, separator).push(last));
    }
}

/// A list that is joined with commas is read back as it was, as long as its items are
/// neither empty nor hold a comma themselves.
pub proof fn law_list_reads_back(list: Seq<Seq<char>>)
    requires
        forall|i: int| 0 <= i < list.len() ==> (#[trigger] list[i]).len() > 0 && !list[i].contains(','),
    ensures
        list_items(join_spec(list, ","@)) == list,
    decreases list.len(),
{
    reveal_strlit(",");
    assert(","@ =~= seq![',']);
    if list.len() == 0 {
        let none: Seq<char> = seq![];
        assert(join_spec(list, ","@) == none);
        assert(split_spec(none, ',') == seq![none]);
        assert(seq![none].drop_last() =~= seq![]);
        reveal_with_fuel(non_empty, 2);
        assert(list_items(none) =~= list);
    } else if list.len() == 1 {
        lemma_split_appended(seq![], list[0], ',');
        assert(seq![list[0]].drop_last() =~= seq![]);
        reveal_with_fuel(non_empty, 2);
        assert(list_items(list[0]) =~= list);
    } else {
        let front = list.drop_last();
        assert forall|i: int| 0 <= i < front.len() implies (#[trigger] front[i]).len() > 0
            && !front[i].contains(',') by {
            assert(front[i] == list[i]);
        }
        law_list_reads_back(front);
        let joined = join_spec(front, ","@);
        lemma_split_appended(joined, list.last(), ',');
        assert(join_spec(list, ","@) == joined + seq![','] + list.last());
        let parts = split_spec(joined, ',');
        assert(parts.push(list.last()).drop_last() =~= parts);
        assert(list =~= front.push(list.last()));
    }
}

/// What is joined with commas is split into what it was, where nothing holds a comma.
pub proof fn lemma_split_joined(list: Seq<Seq<char>>)
    requires
        list.len() > 0,
        forall|i: int| 0 <= i < list.len() ==> !(#[trigger] list[i]).contains(','),
    ensures
        split_spec(join_spec(list, ","@), ',') == list,
    decreases list.len(),
{
    reveal_strlit(",");
    assert(","@ =~= seq![',']);
    if list.len() == 1 {
        lemma_split_appended(seq![], list[0], ',');
        assert(list =~= seq![list[0]]);
    } else {
        let front = list.drop_last();
        assert forall|i: int| 0 <= i < front.len() implies !(#[trigger] front[i]).contains(',') by {
            assert(front[i] == list[i]);
        }
        lemma_split_joined(front);
        lemma_split_appended(join_spec(front, ","@), list.last(), ',');
        assert(list =~= front.push(list.last()));
    }
}

/// The parts of a list that are not empty are parts of it.
pub proof fn lemma_non_empty_parts(list: Seq<Seq<char>>)
    ensures
        forall|item: Seq<char>| #[trigger] non_empty(list).contains(item) ==> list.contains(item),
    decreases list.len(),
{
    if list.len() > 0 {
        let front = list.drop_last();
        lemma_non_empty_parts(front);
        assert forall|item: Seq<char>| #[trigger] non_empty(list).contains(item) implies list.contains(
            item,
        ) by {
            let i = non_empty(list).index_of(item);
            if i < non_empty(front).len() {
                assert(non_empty(front)[i] == item);
                assert(non_empty(front).contains(item));
                assert(list[front.index_of(item)] == item);
            } else {
                assert(list[list.len() - 1] == item);
            }
        }
    }
}

/// The parts of a text hold no separator.
pub proof fn lemma_parts_are_whole(s: Seq<char>, separator: char)
    ensures
        forall|i: int|
            0 <= i < split_spec(s, separator).len() ==> !(#[trigger] split_spec(
                s,
                separator,
            )[i]).contains(separator),
    decreases s.len(),
{
    let at = find_from(s, separator, 0);
    lemma_find_from(s, separator, 0);
    if 0 <= at < s.len() {
        lemma_parts_are_whole(s.skip(at + 1), separator);
        let rest = split_spec(s.skip(at + 1), separator);
        assert forall|i: int| 0 <= i < split_spec(s, separator).len() implies !(
        #[trigger] split_spec(s, separator)[i]).contains(separator) by {
            if i > 0 {
                assert(split_spec(s, separator)[i] == rest[i - 1]);
            }
        }
    }
}

/// Whether a text neither begins nor ends with white space.
pub open spec fn is_trimmed(s: Seq<char>) -> bool {
    s.len() > 0 ==> !is_white(s[0]) && !is_white(s.last())
}

/// What is joined with commas neither begins nor ends with white space if nothing in it does.
pub proof fn lemma_joined_is_trimmed(list: Seq<Seq<char>>)
    requires
        forall|i: int| 0 <= i < list.len() ==> is_trimmed(#[trigger] list[i]),
    ensures
        is_trimmed(join_spec(list, ","@)),
    decreases list.len(),
{
    reveal_strlit(",");
    assert(","@ =~= seq![',']);
    if list.len() == 1 {
        assert(is_trimmed(list[0]));
    } else if list.len() > 1 {
        let front = list.drop_last();
        assert forall|i: int| 0 <= i < front.len() implies is_trimmed(#[trigger] front[i]) by {
            assert(front[i] == list[i]);
        }
        lemma_joined_is_trimmed(front);
        assert(is_trimmed(list[list.len() - 1]));
        assert(!is_white(','));
    }
}

/// The texts joined with a separator between them.
pub open spec fn join_spec(list: Seq<Seq<char>>, separator: Seq<char>) -> Seq<char>
    decreases list.len(),
{
    if list.len() == 0 {
        seq![]
    } else if list.len() == 1 {
        list[0]
    } else {
        join_spec(list.drop_last(), separator) + separator + list.last()
    }
}

/// Joins texts with a separator between them.
pub fn join(list: &Vec<String>, separator: &str) -> (result: String)
    ensures
        result@ == join_spec(views(list@), separator@),
{
    let mut result = String::new();
    let mut index: usize = 0;
    while index < list.len()
        invariant
            index <= list@.len(),
            result@ == join_spec(views(list@).take(index as int), separator@),
        decreases list@.len() - index,
    {
        proof {
            let step = views(list@).take(index + 1);
            assert(step.drop_last() =~= views(list@).take(index as int));
            assert(step.last() == list@[index as int]@);
            assert(index == 0 ==> result@ + list@[index as int]@ =~= step[0]);
        }
        if index > 0 {
            result.append(separator);
        }
        result.append(list[index].as_str());
        index += 1;
    }
    proof {
        assert(views(list@).take(index as int) =~= views(list@));
    }
    result
}

/// Whether a text begins with another.
pub open spec fn starts_with_spec(s: Seq<char>, prefix: Seq<char>) -> bool {
    prefix.len() <= s.len() && s.take(prefix.len() as int) == prefix
}

/// Whether a text begins with another.
pub fn starts_with(value: &str, prefix: &str) -> (result: bool)
    ensures
        result == starts_with_spec(value@, prefix@),
{
    let chars = characters(value);
    let wanted = characters(prefix);
    proof {
        assert(value@.skip(0) =~= value@);
    }
    matches_at(&chars, 0, &wanted)
}

fn matches_at(chars: &Vec<char>, from: usize, wanted: &Vec<char>) -> (result: bool)
    requires
        from <= chars@.len(),
    ensures
        result == starts_with_spec(chars@.skip(from as int), wanted@),
{
    if wanted.len() > chars.len() - from {
        return false;
    }
    let length: usize = chars.len();
    let mut index: usize = 0;
    while index < wanted.len()
        invariant
            length == chars@.len(),
            from <= length,
            index <= wanted@.len() <= chars@.len() - from,
            forall|i: int| 0 <= i < index ==> chars@[from + i] == wanted@[i],
        decreases wanted@.len() - index,
    {
        if chars[from + index] != wanted[index] {
            proof {
                assert(chars@.skip(from as int).take(wanted@.len() as int)[index as int]
                    != wanted@[index as int]);
            }
            return false;
        }
        index += 1;
    }
    proof {
        assert(chars@.skip(from as int).take(wanted@.len() as int) =~= wanted@);
    }
    true
}

/// Whether a text occurs in another.
pub open spec fn contains_spec(s: Seq<char>, wanted: Seq<char>) -> bool {
    exists|i: int| 0 <= i <= s.len() && #[trigger] starts_with_spec(s.skip(i), wanted)
}

/// Whether a text occurs in another.
pub fn contains(value: &str, wanted: &str) -> (found: bool)
    ensures
        found == contains_spec(value@, wanted@),
{
    let chars = characters(value);
    let pattern = characters(wanted);
    let mut index: usize = 0;
    while index < chars.len()
        invariant
            chars@ == value@,
            pattern@ == wanted@,
            index <= chars@.len(),
            forall|i: int| 0 <= i < index ==> !#[trigger] starts_with_spec(value@.skip(i), wanted@),
        decreases chars@.len() - index,
    {
        if matches_at(&chars, index, &pattern) {
            return true;
        }
        index += 1;
    }
    let found = matches_at(&chars, index, &pattern);
    proof {
        if contains_spec(value@, wanted@) {
            let i = choose|i: int|
                0 <= i <= value@.len() && #[trigger] starts_with_spec(value@.skip(i), wanted@);
            assert(i == index);
        }
    }
    found
}

/// The text with every occurrence of `wanted` replaced, from left to right.
pub open spec fn replace_spec(s: Seq<char>, wanted: Seq<char>, by: Seq<char>) -> Seq<char>
    decreases s.len(),
{
    if s.len() == 0 || wanted.len() == 0 {
        s
    } else if starts_with_spec(s, wanted) {
        by + replace_spec(s.skip(wanted.len() as int), wanted, by)
    } else {
        seq![s[0]] + replace_spec(s.skip(1), wanted, by)
    }
}

/// Replaces every occurrence of a non-empty text by another.
pub fn replace(value: &str, wanted: &str, by: &str) -> (result: String)
    requires
        wanted@.len() > 0,
    ensures
        result@ == replace_spec(value@, wanted@, by@),
{
    let chars = characters(value);
    let pattern = characters(wanted);
    let mut result = String::new();
    let mut index: usize = 0;
    proof {
        assert(value@.skip(0) =~= value@);
        assert(result@ + replace_spec(value@, wanted@, by@) =~= replace_spec(value@, wanted@, by@));
    }
    while index < chars.len()
        invariant
            chars@ == value@,
            pattern@ == wanted@,
            wanted@.len() > 0,
            index <= chars@.len(),
            result@ + replace_spec(value@.skip(index as int), wanted@, by@) == replace_spec(
                value@,
                wanted@,
                by@,
            ),
        decreases chars@.len() - index,
    {
        let ghost rest = value@.skip(index as int);
        let ghost before = result@;
        if matches_at(&chars, index, &pattern) {
            result.append(by);
            proof {
                let tail = value@.skip(index + wanted@.len());
                assert(rest.skip(wanted@.len() as int) =~= tail);
                assert(before + (by@ + replace_spec(tail, wanted@, by@)) =~= result@ + replace_spec(
                    tail,
                    wanted@,
                    by@,
                ));
            }
            index += pattern.len();
        } else {
            result.push(chars[index]);
            proof {
                let tail = value@.skip(index + 1);
                assert(rest.skip(1) =~= tail);
                assert(before + (seq![rest[0]] + replace_spec(tail, wanted@, by@)) =~= result@
                    + replace_spec(tail, wanted@, by@));
            }
            index += 1;
        }
    }
    proof {
        assert(value@.skip(index as int).len() == 0);
        assert(result@ + value@.skip(index as int) =~= result@);
    }
    result
}

// ---------------------------------------------------------------------------
// White space
// ---------------------------------------------------------------------------

/// Whether a character has the Unicode property `White_Space`.
pub open spec fn is_white(c: char) -> bool {
    let code = c as u32;
    ||| 0x09 <= code <= 0x0d
    ||| code == 0x20
    ||| code == 0x85
    ||| code == 0xa0
    ||| code == 0x1680
    ||| 0x2000 <= code <= 0x200a
    ||| code == 0x2028
    ||| code == 0x2029
    ||| code == 0x202f
    ||| code == 0x205f
    ||| code == 0x3000
}

/// Whether a character is white space.
pub fn white(c: char) -> (result: bool)
    ensures
        result == is_white(c),
{
    let code: u32 = c as u32;
    (0x09 <= code && code <= 0x0d) || code == 0x20 || code == 0x85 || code == 0xa0 || code == 0x1680
        || (0x2000 <= code && code <= 0x200a) || code == 0x2028 || code == 0x2029 || code == 0x202f
        || code == 0x205f || code == 0x3000
}

/// The text without the white space at its start.
pub open spec fn trim_start_spec(s: Seq<char>) -> Seq<char>
    decreases s.len(),
{
    if s.len() > 0 && is_white(s[0]) {
        trim_start_spec(s.skip(1))
    } else {
        s
    }
}

/// The text without the white space at its end.
pub open spec fn trim_end_spec(s: Seq<char>) -> Seq<char>
    decreases s.len(),
{
    if s.len() > 0 && is_white(s.last()) {
        trim_end_spec(s.drop_last())
    } else {
        s
    }
}

/// The text without the white space around it.
pub open spec fn trim_spec(s: Seq<char>) -> Seq<char> {
    trim_end_spec(trim_start_spec(s))
}

/// Cuts off the white space around a text.
pub fn trim(value: &str) -> (result: String)
    ensures
        result@ == trim_spec(value@),
{
    let chars = characters(value);
    let mut from: usize = 0;
    proof {
        assert(value@.skip(0) =~= value@);
    }
    while from < chars.len() && white(chars[from])
        invariant
            chars@ == value@,
            from <= chars@.len(),
            trim_start_spec(value@.skip(from as int)) == trim_start_spec(value@),
        decreases chars@.len() - from,
    {
        proof {
            assert(value@.skip(from as int).skip(1) =~= value@.skip(from + 1));
        }
        from += 1;
    }
    let ghost body = value@.skip(from as int);
    let mut to: usize = chars.len();
    proof {
        assert(body.take(to - from) =~= body);
    }
    while to > from && white(chars[to - 1])
        invariant
            chars@ == value@,
            from <= to <= chars@.len(),
            body == value@.skip(from as int),
            trim_end_spec(body.take(to - from)) == trim_end_spec(body),
        decreases to,
    {
        proof {
            assert(body.take(to - from).drop_last() =~= body.take(to - from - 1));
        }
        to -= 1;
    }
    proof {
        assert(body.take(to - from) =~= value@.subrange(from as int, to as int));
    }
    slice_text(&chars, from, to)
}

/// Whether a text is empty but for white space.
pub fn blank(value: &str) -> (result: bool)
    ensures
        result == (trim_spec(value@).len() == 0),
{
    trim(value).as_str().is_empty()
}

/// The characters of a text that are no white space.
pub open spec fn without_white(s: Seq<char>) -> Seq<char>
    decreases s.len(),
{
    if s.len() == 0 {
        s
    } else if is_white(s.last()) {
        without_white(s.drop_last())
    } else {
        without_white(s.drop_last()).push(s.last())
    }
}

/// Drops every white space character.
pub fn drop_white(value: &str) -> (result: String)
    ensures
        result@ == without_white(value@),
{
    let chars = characters(value);
    let mut result = String::new();
    let mut index: usize = 0;
    while index < chars.len()
        invariant
            chars@ == value@,
            index <= chars@.len(),
            result@ == without_white(value@.take(index as int)),
        decreases chars@.len() - index,
    {
        proof {
            assert(value@.take(index + 1).drop_last() =~= value@.take(index as int));
        }
        if !white(chars[index]) {
            result.push(chars[index]);
        }
        index += 1;
    }
    proof {
        assert(value@.take(index as int) =~= value@);
    }
    result
}

/// The characters of a text up to its first white space.
pub open spec fn until_white(s: Seq<char>) -> Seq<char>
    decreases s.len(),
{
    if s.len() == 0 || is_white(s[0]) {
        seq![]
    } else {
        seq![s[0]] + until_white(s.skip(1))
    }
}

/// The first word of a text; empty if the text is blank.
pub open spec fn first_word_spec(s: Seq<char>) -> Seq<char> {
    until_white(trim_start_spec(s))
}

/// The first word of a text; empty if the text is blank.
pub fn first_word(value: &str) -> (word: String)
    ensures
        word@ == first_word_spec(value@),
{
    let chars = characters(value);
    let mut from: usize = 0;
    proof {
        assert(value@.skip(0) =~= value@);
    }
    while from < chars.len() && white(chars[from])
        invariant
            chars@ == value@,
            from <= chars@.len(),
            trim_start_spec(value@.skip(from as int)) == trim_start_spec(value@),
        decreases chars@.len() - from,
    {
        proof {
            assert(value@.skip(from as int).skip(1) =~= value@.skip(from + 1));
        }
        from += 1;
    }
    let mut word = String::new();
    let mut index: usize = from;
    proof {
        assert(word@ + until_white(value@.skip(from as int)) =~= until_white(
            value@.skip(from as int),
        ));
    }
    while index < chars.len() && !white(chars[index])
        invariant
            chars@ == value@,
            from <= index <= chars@.len(),
            word@ + until_white(value@.skip(index as int)) == until_white(value@.skip(from as int)),
        decreases chars@.len() - index,
    {
        let ghost before = word@;
        word.push(chars[index]);
        proof {
            let rest = value@.skip(index as int);
            assert(rest.skip(1) =~= value@.skip(index + 1));
            assert(before + (seq![rest[0]] + until_white(rest.skip(1))) =~= word@ + until_white(
                rest.skip(1),
            ));
        }
        index += 1;
    }
    proof {
        assert(word@ + seq![] =~= word@);
    }
    word
}

/// A line without the carriage return before its line feed.
pub open spec fn without_return(s: Seq<char>) -> Seq<char> {
    if s.len() > 0 && s.last() == '\r' {
        s.drop_last()
    } else {
        s
    }
}

/// The lines of a text, without their line ends.
pub open spec fn lines_spec(s: Seq<char>) -> Seq<Seq<char>>
    decreases s.len(),
{
    let at = find_from(s, '\n', 0);
    if s.len() == 0 {
        seq![]
    } else if 0 <= at < s.len() {
        seq![without_return(s.take(at))] + lines_spec(s.skip(at + 1))
    } else {
        seq![s]
    }
}

/// The lines of a text, without their line ends.
pub fn lines(value: &str) -> (result: Vec<String>)
    ensures
        views(result@) == lines_spec(value@),
{
    let chars = characters(value);
    let mut result: Vec<String> = Vec::new();
    let mut from: usize = 0;
    proof {
        assert(value@.skip(0) =~= value@);
        assert(views(result@) + lines_spec(value@) =~= lines_spec(value@));
    }
    while from < chars.len()
        invariant
            chars@ == value@,
            from <= chars@.len(),
            views(result@) + lines_spec(value@.skip(from as int)) == lines_spec(value@),
        decreases chars@.len() - from,
    {
        let at: usize = find_char(&chars, '\n', from);
        let ghost rest = value@.skip(from as int);
        let ghost before = result@;
        proof {
            lemma_find_shift(value@, '\n', from as int, 0);
        }
        if at < chars.len() {
            let end: usize = if at > from && chars[at - 1] == '\r' {
                at - 1
            } else {
                at
            };
            result.push(slice_text(&chars, from, end));
            proof {
                assert(rest.take(at - from).drop_last() =~= rest.take(at - from - 1) || at == from);
                assert(result@.last()@ =~= without_return(rest.take(at - from)));
                assert(rest.skip(at - from + 1) =~= value@.skip(at + 1));
                assert(views(result@) =~= views(before).push(result@.last()@));
                assert(views(result@) + lines_spec(value@.skip(at + 1)) =~= views(before) + (
                seq![result@.last()@] + lines_spec(value@.skip(at + 1))));
            }
            from = at + 1;
        } else {
            result.push(slice_text(&chars, from, chars.len()));
            proof {
                assert(result@.last()@ =~= rest);
                assert(views(result@) =~= views(before) + seq![rest]);
            }
            return result;
        }
    }
    proof {
        assert(views(result@) + seq![] =~= views(result@));
    }
    result
}

/// Whether a text has this line.
pub fn contains_line(value: &str, wanted: &str) -> (found: bool)
    ensures
        found == lines_spec(value@).contains(wanted@),
{
    let all = lines(value);
    let ghost model = lines_spec(value@);
    let mut index: usize = 0;
    while index < all.len()
        invariant
            index <= all@.len(),
            views(all@) == model,
            forall|i: int| 0 <= i < index ==> #[trigger] model[i] != wanted@,
            model == lines_spec(value@),
        decreases all@.len() - index,
    {
        proof {
            assert(model[index as int] == all@[index as int]@);
        }
        if same(all[index].as_str(), wanted) {
            return true;
        }
        index += 1;
    }
    false
}

/// Bytes with more behind them.
pub fn append(bytes: Vec<u8>, more: &[u8]) -> (longer: Vec<u8>)
    ensures
        longer@ == bytes@ + more@,
{
    let mut longer = bytes;
    let mut index: usize = 0;
    proof {
        assert(longer@ =~= bytes@ + more@.take(0));
    }
    while index < more.len()
        invariant
            index <= more@.len(),
            longer@ == bytes@ + more@.take(index as int),
        decreases more@.len() - index,
    {
        longer.push(more[index]);
        proof {
            assert(bytes@ + more@.take(index + 1) =~= (bytes@ + more@.take(index as int)).push(
                more@[index as int],
            ));
        }
        index += 1;
    }
    proof {
        assert(more@.take(index as int) =~= more@);
    }
    longer
}

// ---------------------------------------------------------------------------
// Characters
// ---------------------------------------------------------------------------

/// Whether a character is an ASCII digit.
pub open spec fn is_digit(c: char) -> bool {
    '0' <= c <= '9'
}

/// Whether a character is an ASCII digit.
pub fn digit(c: char) -> (result: bool)
    ensures
        result == is_digit(c),
{
    '0' <= c && c <= '9'
}

/// Whether a character is an ASCII letter or digit.
pub open spec fn is_alphanumeric(c: char) -> bool {
    is_digit(c) || 'a' <= c <= 'z' || 'A' <= c <= 'Z'
}

/// Whether a character is an ASCII letter or digit.
pub fn alphanumeric(c: char) -> (result: bool)
    ensures
        result == is_alphanumeric(c),
{
    digit(c) || ('a' <= c && c <= 'z') || ('A' <= c && c <= 'Z')
}

/// A character with an ASCII capital made small.
pub open spec fn lower_char(c: char) -> char {
    if 'A' <= c <= 'Z' {
        (c as u8 + 32) as char
    } else {
        c
    }
}

/// A text with its ASCII capitals made small.
pub open spec fn lowercase_spec(s: Seq<char>) -> Seq<char> {
    s.map_values(|c: char| lower_char(c))
}

/// A text with its ASCII capitals made small.
pub fn lowercase(value: &str) -> (result: String)
    ensures
        result@ == lowercase_spec(value@),
{
    let chars = characters(value);
    let mut result = String::new();
    let mut index: usize = 0;
    while index < chars.len()
        invariant
            chars@ == value@,
            index <= chars@.len(),
            result@ == lowercase_spec(value@.take(index as int)),
        decreases chars@.len() - index,
    {
        let c = chars[index];
        let small: char = if 'A' <= c && c <= 'Z' {
            (c as u8 + 32) as char
        } else {
            c
        };
        result.push(small);
        proof {
            assert(result@ =~= lowercase_spec(value@.take(index + 1)));
        }
        index += 1;
    }
    proof {
        assert(value@.take(index as int) =~= value@);
    }
    result
}

/// Whether every character is a digit or, where `dots` says so, a dot.
pub open spec fn all_digits(s: Seq<char>, dots: bool) -> bool {
    forall|i: int| 0 <= i < s.len() ==> is_digit(#[trigger] s[i]) || (dots && s[i] == '.')
}

/// Whether every character is a digit or, where `dots` says so, a dot.
pub fn only_digits(value: &str, dots: bool) -> (result: bool)
    ensures
        result == all_digits(value@, dots),
{
    let chars = characters(value);
    let mut index: usize = 0;
    while index < chars.len()
        invariant
            chars@ == value@,
            index <= chars@.len(),
            all_digits(value@.take(index as int), dots),
        decreases chars@.len() - index,
    {
        if !digit(chars[index]) && !(dots && chars[index] == '.') {
            return false;
        }
        proof {
            assert forall|i: int| 0 <= i < index + 1 implies is_digit(
                #[trigger] value@.take(index + 1)[i],
            ) || (dots && value@.take(index + 1)[i] == '.') by {
                if i < index {
                    assert(value@.take(index as int)[i] == value@[i]);
                }
            }
        }
        index += 1;
    }
    proof {
        assert(value@.take(index as int) =~= value@);
    }
    true
}

// ---------------------------------------------------------------------------
// Numbers
// ---------------------------------------------------------------------------

/// The digit character of a number below ten.
pub open spec fn digit_char(n: nat) -> char {
    (n + 48) as u8 as char
}

/// A number in decimal notation.
pub open spec fn decimal_spec(n: nat) -> Seq<char>
    decreases n,
{
    if n < 10 {
        seq![digit_char(n)]
    } else {
        decimal_spec(n / 10).push(digit_char(n % 10))
    }
}

/// A number in decimal notation.
pub fn decimal(n: u64) -> (result: String)
    ensures
        result@ == decimal_spec(n as nat),
    decreases n,
{
    let last: char = (48 + (n % 10) as u8) as char;
    let mut result = if n < 10 {
        String::new()
    } else {
        decimal(n / 10)
    };
    result.push(last);
    proof {
        assert(n < 10 ==> result@ =~= seq![digit_char(n as nat)]);
    }
    result
}

/// A signed number in decimal notation.
pub open spec fn signed_spec(n: int) -> Seq<char> {
    if n < 0 {
        seq!['-'] + decimal_spec((-n) as nat)
    } else {
        decimal_spec(n as nat)
    }
}

/// A signed number in decimal notation.
pub fn signed(n: i32) -> (result: String)
    ensures
        result@ == signed_spec(n as int),
{
    if n < 0 {
        let mut result = String::new();
        result.push('-');
        let size: u64 = (-(n as i64)) as u64;
        result.append(decimal(size).as_str());
        proof {
            assert(seq!['-'] =~= Seq::<char>::empty().push('-'));
        }
        result
    } else {
        decimal(n as u64)
    }
}

/// Why a text is no number.
#[derive(Debug, Clone, Copy, PartialEq, Eq, Structural)]
pub enum NumberError {
    Empty,
    InvalidDigit,
    TooLarge,
}

/// How a number error reads.
pub open spec fn number_error_text(error: NumberError) -> Seq<char> {
    match error {
        NumberError::Empty => "cannot parse integer from empty string"@,
        NumberError::InvalidDigit => "invalid digit found in string"@,
        NumberError::TooLarge => "number too large to fit in target type"@,
    }
}

impl NumberError {
    /// How the error reads.
    pub fn message(&self) -> (text: String)
        ensures
            text@ == number_error_text(*self),
    {
        match self {
            NumberError::Empty => owned("cannot parse integer from empty string"),
            NumberError::InvalidDigit => owned("invalid digit found in string"),
            NumberError::TooLarge => owned("number too large to fit in target type"),
        }
    }
}

/// The number that the digits from `from` on give, continuing from `read`.
pub open spec fn read_digits(s: Seq<char>, from: int, read: nat, max: nat) -> Result<
    nat,
    NumberError,
>
    decreases s.len() - from,
{
    if from < 0 || from >= s.len() {
        Ok(read)
    } else if !is_digit(s[from]) {
        Err(NumberError::InvalidDigit)
    } else {
        let next = (read * 10 + (s[from] as u32 - 48)) as nat;
        if next > max {
            Err(NumberError::TooLarge)
        } else {
            read_digits(s, from + 1, next, max)
        }
    }
}

/// The unsigned number that a text gives, which may begin with a plus sign and
/// may not exceed `max`.
pub open spec fn number_spec(s: Seq<char>, max: nat) -> Result<nat, NumberError> {
    if s.len() == 0 {
        Err(NumberError::Empty)
    } else if s[0] == '+' && s.len() > 1 {
        read_digits(s, 1, 0, max)
    } else {
        read_digits(s, 0, 0, max)
    }
}

/// Reads an unsigned number of at most `max`.
pub fn parse_number(value: &str, max: u64) -> (result: Result<u64, NumberError>)
    ensures
        match result {
            Ok(n) => number_spec(value@, max as nat) == Ok::<nat, NumberError>(n as nat) && n <= max,
            Err(error) => number_spec(value@, max as nat) == Err::<nat, NumberError>(error),
        },
{
    let chars = characters(value);
    if chars.len() == 0 {
        return Err(NumberError::Empty);
    }
    let mut index: usize = if chars[0] == '+' && chars.len() > 1 {
        1
    } else {
        0
    };
    let mut read: u64 = 0;
    while index < chars.len()
        invariant
            chars@ == value@,
            index <= chars@.len(),
            read <= max,
            number_spec(value@, max as nat) == read_digits(
                value@,
                index as int,
                read as nat,
                max as nat,
            ),
        decreases chars@.len() - index,
    {
        let c = chars[index];
        if !digit(c) {
            return Err(NumberError::InvalidDigit);
        }
        let added: u64 = (c as u32 - 48) as u64;
        match read.checked_mul(10) {
            Some(shifted) => match shifted.checked_add(added) {
                Some(next) => {
                    if next > max {
                        return Err(NumberError::TooLarge);
                    }
                    read = next;
                },
                None => {
                    return Err(NumberError::TooLarge);
                },
            },
            None => {
                return Err(NumberError::TooLarge);
            },
        }
        index += 1;
    }
    Ok(read)
}

/// The signed number that a text gives, if it gives one that fits in 32 bits.
pub open spec fn signed_number_spec(s: Seq<char>) -> Option<int> {
    if s.len() > 1 && s[0] == '-' {
        match read_digits(s, 1, 0, 2147483648) {
            Ok(n) => Some(-(n as int)),
            Err(_) => None,
        }
    } else {
        match number_spec(s, 2147483647) {
            Ok(n) => Some(n as int),
            Err(_) => None,
        }
    }
}

/// Reads a signed number that fits in 32 bits.
pub fn parse_signed(value: &str) -> (result: Option<i32>)
    ensures
        match result {
            Some(n) => signed_number_spec(value@) == Some(n as int),
            None => signed_number_spec(value@) is None,
        },
{
    let chars = characters(value);
    if chars.len() > 1 && chars[0] == '-' {
        let mut index: usize = 1;
        let mut read: i64 = 0;
        while index < chars.len()
            invariant
                chars@ == value@,
                value@.len() > 1 && value@[0] == '-',
                1 <= index <= chars@.len(),
                0 <= read <= 2147483648,
                read_digits(value@, 1, 0, 2147483648) == read_digits(
                    value@,
                    index as int,
                    read as nat,
                    2147483648,
                ),
            decreases chars@.len() - index,
        {
            let c = chars[index];
            if !digit(c) {
                return None;
            }
            let next: i64 = read * 10 + (c as u32 - 48) as i64;
            if next > 2147483648 {
                return None;
            }
            read = next;
            index += 1;
        }
        return Some((0 - read) as i32);
    }
    match parse_number(value, 2147483647) {
        Ok(n) => Some(n as i32),
        Err(_) => None,
    }
}

/// A number written in decimal notation reads back as itself.
pub proof fn law_decimal_reads_back(n: nat, max: nat)
    requires
        n <= max,
    ensures
        number_spec(decimal_spec(n), max) == Ok::<nat, NumberError>(n),
        decimal_spec(n).len() > 0,
        forall|i: int| 0 <= i < decimal_spec(n).len() ==> is_digit(#[trigger] decimal_spec(n)[i]),
{
    lemma_decimal_digits(n);
    lemma_decimal_read(n, max, seq![]);
    assert(decimal_spec(n) + seq![] =~= decimal_spec(n));
}

proof fn lemma_decimal_digits(n: nat)
    ensures
        decimal_spec(n).len() > 0,
        forall|i: int| 0 <= i < decimal_spec(n).len() ==> is_digit(#[trigger] decimal_spec(n)[i]),
    decreases n,
{
    if n >= 10 {
        lemma_decimal_digits(n / 10);
    }
}

proof fn lemma_decimal_read(n: nat, max: nat, tail: Seq<char>)
    requires
        n <= max,
    ensures
        read_digits(decimal_spec(n) + tail, 0, 0, max) == read_digits(
            decimal_spec(n) + tail,
            decimal_spec(n).len() as int,
            n,
            max,
        ),
    decreases n,
{
    let s = decimal_spec(n) + tail;
    if n < 10 {
        assert(s[0] == digit_char(n));
        assert(read_digits(s, 0, 0, max) == read_digits(s, 1, n, max));
    } else {
        let front = decimal_spec(n / 10);
        let last = digit_char(n % 10);
        lemma_decimal_read(n / 10, max, seq![last] + tail);
        assert(front + (seq![last] + tail) =~= s);
        assert(s[front.len() as int] == last);
    }
}

/// The two texts that a truth value is written as.
pub open spec fn bool_spec(value: bool) -> Seq<char> {
    if value {
        "true"@
    } else {
        "false"@
    }
}

/// The truth value as text.
pub fn bool_text(value: bool) -> (text: String)
    ensures
        text@ == bool_spec(value),
{
    if value {
        owned("true")
    } else {
        owned("false")
    }
}

/// The truth value that a text gives.
pub open spec fn parse_bool_spec(s: Seq<char>) -> Option<bool> {
    if s == "true"@ {
        Some(true)
    } else if s == "false"@ {
        Some(false)
    } else {
        None
    }
}

/// Reads a truth value.
pub fn parse_bool(value: &str) -> (result: Option<bool>)
    ensures
        result == parse_bool_spec(value@),
{
    if same(value, "true") {
        Some(true)
    } else if same(value, "false") {
        Some(false)
    } else {
        None
    }
}

/// A truth value written as text reads back as itself.
pub proof fn law_bool_reads_back(value: bool)
    ensures
        parse_bool_spec(bool_spec(value)) == Some(value),
{
    reveal_strlit("true");
    reveal_strlit("false");
    assert("true"@.len() != "false"@.len());
}

/// The hexadecimal digit of a number below sixteen.
pub open spec fn hex_char(n: nat) -> char {
    if n < 10 {
        (n + 48) as u8 as char
    } else {
        (n + 87) as u8 as char
    }
}

/// The lowest `width` hexadecimal digits of a number.
pub open spec fn hex_spec(n: nat, width: nat) -> Seq<char>
    decreases width,
{
    if width == 0 {
        seq![]
    } else {
        hex_spec(n / 16, (width - 1) as nat).push(hex_char(n % 16))
    }
}

/// The lowest `width` hexadecimal digits of a number.
pub fn hex(n: u16, width: u8) -> (result: String)
    ensures
        result@ == hex_spec(n as nat, width as nat),
    decreases width,
{
    if width == 0 {
        return String::new();
    }
    let low: u8 = (n % 16) as u8;
    let last: char = if low < 10 {
        (low + 48) as char
    } else {
        (low + 87) as char
    };
    let mut result = hex(n / 16, width - 1);
    result.push(last);
    result
}

/// A hexadecimal notation has as many digits as it is to have.
pub proof fn law_hex_has_its_width(n: nat, width: nat)
    ensures
        hex_spec(n, width).len() == width,
    decreases width,
{
    if width > 0 {
        law_hex_has_its_width(n / 16, (width - 1) as nat);
    }
}

/// The number that a hexadecimal digit stands for.
pub open spec fn hex_value(c: char) -> int {
    if '0' <= c <= '9' {
        c as int - '0' as int
    } else {
        c as int - 'a' as int + 10
    }
}

/// The four hexadecimal digits of a number of sixteen bits stand for the number.
pub proof fn law_hex_reads_back(n: nat)
    requires
        n < 65536,
    ensures
        ({
            let digits = hex_spec(n, 4);
            &&& digits.len() == 4
            &&& hex_value(digits[0]) * 4096 + hex_value(digits[1]) * 256 + hex_value(digits[2]) * 16
                + hex_value(digits[3]) == n
            &&& forall|i: int|
                0 <= i < 4 ==> '0' <= #[trigger] digits[i] <= '9' || 'a' <= digits[i] <= 'f'
        }),
{
    reveal_with_fuel(hex_spec, 5);
    let digits = hex_spec(n, 4);
    assert(digits[3] == hex_char(n % 16));
    assert(digits[2] == hex_char(n / 16 % 16));
    assert(digits[1] == hex_char(n / 16 / 16 % 16));
    assert(digits[0] == hex_char(n / 16 / 16 / 16 % 16));
    assert(n / 16 / 16 / 16 < 16);
}

// ---------------------------------------------------------------------------
// Paths
// ---------------------------------------------------------------------------

/// A path below another. An absolute path stands for itself.
pub open spec fn join_path_spec(base: Seq<char>, rest: Seq<char>) -> Seq<char> {
    if rest.len() > 0 && rest[0] == '/' {
        rest
    } else if base.len() == 0 || base.last() == '/' {
        base + rest
    } else {
        base.push('/') + rest
    }
}

/// A path below another. An absolute path stands for itself.
pub fn join_path(base: &str, rest: &str) -> (path: String)
    ensures
        path@ == join_path_spec(base@, rest@),
{
    let behind = characters(rest);
    if behind.len() > 0 && behind[0] == '/' {
        return owned(rest);
    }
    let front = characters(base);
    let mut path = owned(base);
    if front.len() > 0 && front[front.len() - 1] != '/' {
        path.push('/');
    }
    path.append(rest);
    path
}

/// A path below an absolute base, for a relative name, starts with the base.
pub proof fn law_joined_path_is_below(base: Seq<char>, rest: Seq<char>)
    requires
        rest.len() == 0 || rest[0] != '/',
    ensures
        starts_with_spec(join_path_spec(base, rest), base),
        join_path_spec(base, rest).len() >= base.len() + rest.len(),
{
    assert(join_path_spec(base, rest).take(base.len() as int) =~= base);
}

// ---------------------------------------------------------------------------
// Texts within texts
// ---------------------------------------------------------------------------

/// Whether a text ends with another.
pub open spec fn ends_with_spec(s: Seq<char>, suffix: Seq<char>) -> bool {
    suffix.len() <= s.len() && s.skip(s.len() - suffix.len()) == suffix
}

/// What occurs in the first of two joined texts occurs in both together, and so does what
/// occurs in the second.
pub broadcast proof fn lemma_contains_joined(a: Seq<char>, b: Seq<char>, wanted: Seq<char>)
    requires
        contains_spec(a, wanted) || contains_spec(b, wanted),
    ensures
        #[trigger] contains_spec(a + b, wanted),
{
    if contains_spec(a, wanted) {
        let i = choose|i: int| 0 <= i <= a.len() && #[trigger] starts_with_spec(a.skip(i), wanted);
        assert((a + b).skip(i).take(wanted.len() as int) =~= a.skip(i).take(wanted.len() as int));
        assert(starts_with_spec((a + b).skip(i), wanted));
    } else {
        let i = choose|i: int| 0 <= i <= b.len() && #[trigger] starts_with_spec(b.skip(i), wanted);
        assert((a + b).skip(a.len() + i) =~= b.skip(i));
        assert(starts_with_spec((a + b).skip(a.len() + i), wanted));
    }
}

/// A text occurs in itself.
pub broadcast proof fn lemma_contains_itself(s: Seq<char>)
    ensures
        #[trigger] contains_spec(s, s),
{
    assert(s.skip(0) =~= s);
    assert(s.take(s.len() as int) =~= s);
    assert(starts_with_spec(s.skip(0), s));
}

/// What ends a text, what follows the text and what begins the text behind that occur together.
pub proof fn lemma_contains_across(
    a: Seq<char>,
    middle: Seq<char>,
    b: Seq<char>,
    suffix: Seq<char>,
    prefix: Seq<char>,
)
    requires
        ends_with_spec(a, suffix),
        starts_with_spec(b, prefix),
    ensures
        contains_spec(a + middle + b, suffix + middle + prefix),
{
    let whole = a + middle + b;
    let wanted = suffix + middle + prefix;
    let at = a.len() - suffix.len();
    assert forall|i: int| 0 <= i < wanted.len() implies wanted[i] == whole[at + i] by {
        if i < suffix.len() {
            assert(a.skip(at)[i] == suffix[i]);
        } else if i >= suffix.len() + middle.len() {
            assert(b.take(prefix.len() as int)[i - suffix.len() - middle.len()] == prefix[i
                - suffix.len() - middle.len()]);
        }
    }
    assert(whole.skip(at).take(wanted.len() as int) =~= wanted);
    assert(starts_with_spec(whole.skip(at), wanted));
}

/// A text ends as its last part does.
pub broadcast proof fn lemma_ends_joined(a: Seq<char>, b: Seq<char>, suffix: Seq<char>)
    requires
        ends_with_spec(b, suffix),
    ensures
        #[trigger] ends_with_spec(a + b, suffix),
{
    assert((a + b).skip(a.len() + b.len() - suffix.len()) =~= b.skip(b.len() - suffix.len()));
}

/// A text begins as its first part does.
pub broadcast proof fn lemma_starts_joined(a: Seq<char>, b: Seq<char>, prefix: Seq<char>)
    requires
        starts_with_spec(a, prefix),
    ensures
        #[trigger] starts_with_spec(a + b, prefix),
{
    assert((a + b).take(prefix.len() as int) =~= a.take(prefix.len() as int));
}

/// A text is cut at the separator that was put between two others, where the first holds none.
pub proof fn lemma_split_once_joined(first: Seq<char>, separator: char, rest: Seq<char>)
    requires
        !first.contains(separator),
    ensures
        split_once_spec(first + seq![separator] + rest, separator) == Some((first, rest)),
{
    let s = first + seq![separator] + rest;
    let at = first.len() as int;
    assert(s[at] == separator);
    assert forall|i: int| 0 <= i < at implies s[i] != separator by {
        assert(s[i] == first[i]);
    }
    lemma_find_is(s, separator, 0, at);
    assert(s.take(at) =~= first);
    assert(s.skip(at + 1) =~= rest);
}

/// A part that holds no separator is the last one of a text that ends with it.
pub proof fn lemma_split_last(front: Seq<char>, last: Seq<char>, separator: char)
    requires
        !last.contains(separator),
    ensures
        split_spec(front + seq![separator] + last, separator) == split_spec(front, separator).push(
            last,
        ),
        split_spec(last, separator) == seq![last],
{
    lemma_split_appended(front, last, separator);
}

/// The decimal notation of a number below a thousand has as many digits as the number takes,
/// and its first digit is a zero only in zero itself.
pub proof fn law_decimal_is_short(n: nat)
    requires
        n < 1000,
    ensures
        decimal_spec(n).len() == if n < 10 {
            1int
        } else if n < 100 {
            2
        } else {
            3
        },
        decimal_spec(n)[0] == '0' <==> n == 0,
{
    reveal_with_fuel(decimal_spec, 4);
}

/// A relative path below a directory stands behind it, with one slash between them.
pub proof fn law_relative_path_stands_behind(base: Seq<char>, rest: Seq<char>)
    requires
        base.len() > 0,
        base.last() != '/',
        rest.len() == 0 || rest[0] != '/',
    ensures
        join_path_spec(base, rest) == base + "/"@ + rest,
{
    reveal_strlit("/");
    assert(base.push('/') =~= base + "/"@);
}

pub broadcast group group_texts_within {
    lemma_contains_joined,
    lemma_contains_itself,
    lemma_ends_joined,
    lemma_starts_joined,
}

// ---------------------------------------------------------------------------
// Laws
// ---------------------------------------------------------------------------

/// Whether a text is nothing but white space.
pub open spec fn all_white(s: Seq<char>) -> bool {
    forall|i: int| 0 <= i < s.len() ==> is_white(#[trigger] s[i])
}

proof fn lemma_trim_start(before: Seq<char>, s: Seq<char>)
    requires
        all_white(before),
        s.len() > 0 ==> !is_white(s[0]),
    ensures
        trim_start_spec(before + s) == s,
    decreases before.len(),
{
    let whole = before + s;
    if before.len() > 0 {
        assert(whole[0] == before[0]);
        assert(whole.skip(1) =~= before.skip(1) + s);
        lemma_trim_start(before.skip(1), s);
    } else {
        assert(whole =~= s);
    }
}

proof fn lemma_trim_end(s: Seq<char>, after: Seq<char>)
    requires
        all_white(after),
        s.len() > 0 ==> !is_white(s.last()),
    ensures
        trim_end_spec(s + after) == s,
    decreases after.len(),
{
    let whole = s + after;
    if after.len() > 0 {
        assert(whole.last() == after.last());
        assert(whole.drop_last() =~= s + after.drop_last());
        lemma_trim_end(s, after.drop_last());
    } else {
        assert(whole =~= s);
    }
}

/// Trimming takes away exactly the white space around a text: what has none around it stays,
/// whatever white space is put before and behind it, and white space alone leaves nothing.
pub proof fn law_trim_takes_white_space_away(before: Seq<char>, s: Seq<char>, after: Seq<char>)
    requires
        all_white(before),
        all_white(after),
        is_trimmed(s),
    ensures
        trim_spec(before + s + after) == s,
{
    if s.len() > 0 {
        assert(before + s + after =~= before + (s + after));
        assert((s + after)[0] == s[0]);
        lemma_trim_start(before, s + after);
        lemma_trim_end(s, after);
    } else {
        let none: Seq<char> = seq![];
        let whole = before + s + after;
        assert forall|i: int| 0 <= i < whole.len() implies is_white(#[trigger] whole[i]) by {
            if i < before.len() {
                assert(whole[i] == before[i]);
            } else {
                assert(whole[i] == after[i - before.len()]);
            }
        }
        assert(whole =~= whole + none);
        lemma_trim_start(whole, none);
        assert(trim_spec(whole) =~= s);
    }
}

/// What is trimmed has no white space around it any more, and white space is what a person
/// sees as such: blanks, tabulators and line ends are.
pub proof fn law_trimmed_text_is_trimmed(s: Seq<char>)
    ensures
        is_trimmed(trim_spec(s)),
        is_white(' ') && is_white('\t') && is_white('\n') && is_white('\r'),
        forall|c: char| #[trigger] is_alphanumeric(c) ==> !is_white(c),
    decreases s.len(),
{
    if s.len() > 0 && is_white(s[0]) {
        law_trimmed_text_is_trimmed(s.skip(1));
    } else {
        lemma_trimmed_end(s);
    }
}

proof fn lemma_trimmed_end(s: Seq<char>)
    ensures
        ({
            let kept = trim_end_spec(s);
            &&& kept.len() <= s.len()
            &&& kept == s.take(kept.len() as int)
            &&& kept.len() > 0 ==> !is_white(kept.last())
        }),
    decreases s.len(),
{
    if s.len() > 0 && is_white(s.last()) {
        lemma_trimmed_end(s.drop_last());
        let kept = trim_end_spec(s);
        assert(kept =~= s.take(kept.len() as int));
    } else {
        assert(s.take(s.len() as int) =~= s);
    }
}

/// The first word of a text is what stands before its first white space, once the white space
/// at its start is gone.
pub proof fn law_first_word_ends_at_white_space(
    before: Seq<char>,
    word: Seq<char>,
    rest: Seq<char>,
)
    requires
        all_white(before),
        word.len() > 0,
        forall|i: int| 0 <= i < word.len() ==> !is_white(#[trigger] word[i]),
        rest.len() > 0 ==> is_white(rest[0]),
    ensures
        first_word_spec(before + word + rest) == word,
{
    assert(before + word + rest =~= before + (word + rest));
    assert((word + rest)[0] == word[0]);
    lemma_trim_start(before, word + rest);
    lemma_until_white(word, rest);
}

proof fn lemma_until_white(word: Seq<char>, rest: Seq<char>)
    requires
        forall|i: int| 0 <= i < word.len() ==> !is_white(#[trigger] word[i]),
        rest.len() > 0 ==> is_white(rest[0]),
    ensures
        until_white(word + rest) == word,
    decreases word.len(),
{
    let whole = word + rest;
    if word.len() > 0 {
        assert(whole[0] == word[0]);
        assert(whole.skip(1) =~= word.skip(1) + rest);
        lemma_until_white(word.skip(1), rest);
        assert(seq![word[0]] + word.skip(1) =~= word);
    } else {
        assert(whole =~= rest);
        assert(until_white(whole) =~= word);
    }
}

/// The lines of a text are what stands before its line feeds: a line that holds neither a line
/// feed nor a carriage return is the first one of every text that begins with it and a line
/// feed, and the others follow. It does not matter whether a carriage return stands before the
/// line feed.
pub proof fn law_lines_end_at_line_feeds(line: Seq<char>, rest: Seq<char>)
    requires
        !line.contains('\n'),
        !line.contains('\r'),
    ensures
        lines_spec(line + seq!['\n'] + rest) == seq![line] + lines_spec(rest),
        lines_spec(line + seq!['\r'] + seq!['\n'] + rest) == seq![line] + lines_spec(rest),
        line.len() > 0 ==> lines_spec(line) == seq![line],
        lines_spec(seq![]) == Seq::<Seq<char>>::empty(),
{
    let first = line + seq!['\n'] + rest;
    let at = line.len() as int;
    assert(first[at] == '\n');
    assert forall|i: int| 0 <= i < at implies first[i] != '\n' by {
        assert(first[i] == line[i]);
    }
    lemma_find_is(first, '\n', 0, at);
    assert(first.take(at) =~= line);
    assert(first.skip(at + 1) =~= rest);
    assert(line.len() > 0 ==> line.contains(line.last()));
    let second = line + seq!['\r'] + seq!['\n'] + rest;
    assert(second[at + 1] == '\n' && second[at] == '\r');
    assert forall|i: int| 0 <= i < at + 1 implies second[i] != '\n' by {
        if i < at {
            assert(second[i] == line[i]);
        }
    }
    lemma_find_is(second, '\n', 0, at + 1);
    assert(second.take(at + 1) =~= line.push('\r'));
    assert(line.push('\r').drop_last() =~= line);
    assert(second.skip(at + 2) =~= rest);
    assert forall|i: int| 0 <= i < at implies line[i] != '\n' by {
        assert(line.contains(line[i]));
    }
    lemma_find_is(line, '\n', 0, at);
    assert(lines_spec(seq![]) =~= Seq::<Seq<char>>::empty());
}

/// Without its white space a text has all its other characters, in their order: what holds no
/// white space stays, and two texts in a row lose what each of them loses.
pub proof fn law_only_white_space_is_dropped(s: Seq<char>, other: Seq<char>)
    ensures
        forall|i: int| 0 <= i < without_white(s).len() ==> !is_white(#[trigger] without_white(s)[i]),
        without_white(s + other) == without_white(s) + without_white(other),
        (forall|i: int| 0 <= i < s.len() ==> !is_white(#[trigger] s[i])) ==> without_white(s) == s,
        all_white(s) ==> without_white(s).len() == 0,
    decreases s.len() + other.len(),
{
    if other.len() > 0 {
        law_only_white_space_is_dropped(s, other.drop_last());
        assert((s + other).drop_last() =~= s + other.drop_last());
        assert((s + other).last() == other.last());
        assert(without_white(s) + without_white(other) =~= without_white(s + other));
    } else {
        assert(s + other =~= s);
        assert(without_white(s) + without_white(other) =~= without_white(s));
        if s.len() > 0 {
            law_only_white_space_is_dropped(s.drop_last(), other);
            if forall|i: int| 0 <= i < s.len() ==> !is_white(#[trigger] s[i]) {
                assert(!is_white(s[s.len() - 1]));
                assert forall|i: int| 0 <= i < s.drop_last().len() implies !is_white(
                    #[trigger] s.drop_last()[i],
                ) by {
                    assert(s.drop_last()[i] == s[i]);
                }
                assert(s.drop_last().push(s.last()) =~= s);
            }
            if all_white(s) {
                assert(is_white(s[s.len() - 1]));
                assert forall|i: int| 0 <= i < s.drop_last().len() implies is_white(
                    #[trigger] s.drop_last()[i],
                ) by {
                    assert(s.drop_last()[i] == s[i]);
                }
            }
        }
    }
}

/// Making capitals small changes nothing but the capitals, and nothing is left to change then.
pub proof fn law_lowercase_is_small(s: Seq<char>, i: int)
    requires
        0 <= i < s.len(),
    ensures
        lowercase_spec(s).len() == s.len(),
        'A' <= s[i] <= 'Z' ==> lowercase_spec(s)[i] as int == s[i] as int + 32,
        !('A' <= s[i] <= 'Z') ==> lowercase_spec(s)[i] == s[i],
        lowercase_spec(lowercase_spec(s)) == lowercase_spec(s),
{
    assert(lowercase_spec(lowercase_spec(s)) =~= lowercase_spec(s));
}

/// A text is replaced wherever it occurs: up to the first occurrence of a single character
/// nothing changes, there the other text stands, and so on behind it.
pub proof fn law_every_occurrence_is_replaced(
    front: Seq<char>,
    wanted: char,
    rest: Seq<char>,
    by: Seq<char>,
)
    requires
        !front.contains(wanted),
    ensures
        replace_spec(front + seq![wanted] + rest, seq![wanted], by) == front + by + replace_spec(
            rest,
            seq![wanted],
            by,
        ),
        replace_spec(front, seq![wanted], by) == front,
    decreases front.len(),
{
    let single = seq![wanted];
    let s = front + single + rest;
    if front.len() > 0 {
        let tail = front.skip(1);
        assert forall|i: int| 0 <= i < tail.len() implies tail[i] != wanted by {
            assert(tail[i] == front[i + 1]);
            assert(front.contains(front[i + 1]));
        }
        law_every_occurrence_is_replaced(tail, wanted, rest, by);
        assert(front.contains(front[0]));
        assert(s.take(1)[0] == front[0] && front.take(1)[0] == front[0]);
        assert(single[0] == wanted);
        assert(s.skip(1) =~= tail + single + rest);
        assert(seq![s[0]] + (tail + by + replace_spec(rest, single, by)) =~= front + by
            + replace_spec(rest, single, by));
        assert(seq![front[0]] + tail =~= front);
    } else {
        assert(s.take(1) =~= single);
        assert(s.skip(1) =~= rest);
        assert(front + by + replace_spec(rest, single, by) =~= by + replace_spec(rest, single, by));
    }
}

/// A signed number that is written in decimal notation is read back as itself.
pub proof fn law_signed_number_reads_back(n: int)
    requires
        -2147483648 <= n <= 2147483647,
    ensures
        signed_number_spec(signed_spec(n)) == Some(n),
{
    if n < 0 {
        let m = (-n) as nat;
        lemma_decimal_digits(m);
        lemma_decimal_read(m, 2147483648, seq![]);
        let digits = decimal_spec(m);
        assert(digits + seq![] =~= digits);
        lemma_read_behind(seq!['-'], digits, 0, 0, 2147483648);
        assert(signed_spec(n)[0] == '-');
    } else {
        law_decimal_reads_back(n as nat, 2147483647);
        assert(is_digit(decimal_spec(n as nat)[0]));
    }
}

proof fn lemma_read_behind(front: Seq<char>, s: Seq<char>, from: int, read: nat, max: nat)
    requires
        0 <= from <= s.len(),
    ensures
        read_digits(front + s, front.len() + from, read, max) == read_digits(s, from, read, max),
    decreases s.len() - from,
{
    if from < s.len() {
        let whole = front + s;
        assert(whole[front.len() + from] == s[from]);
        if is_digit(s[from]) {
            let next = (read * 10 + (s[from] as u32 - 48)) as nat;
            if next <= max {
                lemma_read_behind(front, s, from + 1, next, max);
            }
        }
    }
}

/// Two numbers that are written alike are the same number, signed or not.
pub proof fn law_numbers_are_told_apart(first: nat, second: nat)
    ensures
        decimal_spec(first) == decimal_spec(second) ==> first == second,
{
    let max = if first > second {
        first
    } else {
        second
    };
    law_decimal_reads_back(first, max);
    law_decimal_reads_back(second, max);
}

/// A text is cut at the first place where the separator stands: the two parts with the
/// separator between them are the text, and the first part holds none.
pub proof fn law_text_is_cut_at_the_first(s: Seq<char>, separator: char)
    ensures
        match split_once_spec(s, separator) {
            Some((first, rest)) => s == first + seq![separator] + rest && !first.contains(separator),
            None => !s.contains(separator),
        },
{
    let at = find_from(s, separator, 0);
    lemma_find_from(s, separator, 0);
    if at < s.len() {
        assert(s =~= s.take(at) + seq![separator] + s.skip(at + 1));
    }
}

} // verus!
