//! Names made of other names: the message of a method, the registration of a trait.

use vstd::prelude::*;
use vstd::string::*;
use crate::numerals::characters;

verus! {

/// The characters a character is in upper case, by the Unicode tables of std.
pub uninterp spec fn uppercase_chars(character: char) -> Seq<char>;

/// The characters a character is in lower case, by the Unicode tables of std.
pub uninterp spec fn lowercase_chars(character: char) -> Seq<char>;

/// Whether a character has the Unicode property `Uppercase`.
pub uninterp spec fn is_uppercase_char(character: char) -> bool;

/// Whether a character is one of the letters from a to z.
pub open spec fn is_small_letter(character: char) -> bool {
    'a' <= character && character <= 'z'
}

/// Whether a character is one of the letters from A to Z.
pub open spec fn is_capital_letter(character: char) -> bool {
    'A' <= character && character <= 'Z'
}

/// The letter from A to Z for one from a to z.
pub open spec fn capital_letter(small: char) -> char {
    (small as u32 - 32) as char
}

/// The letter from a to z for one from A to Z.
pub open spec fn small_letter(capital: char) -> char {
    (capital as u32 + 32) as char
}

/// `char::to_uppercase`: a letter from a to z is the one from A to Z. Of other characters
/// the result is named, since the Unicode tables are its definition.
#[verifier::external_body]
fn to_uppercase(character: char) -> (text: String)
    ensures
        text@ == uppercase_chars(character),
        is_small_letter(character) ==> text@ == seq![capital_letter(character)],
{
    character.to_uppercase().to_string()
}

/// `char::to_lowercase`: a letter from A to Z is the one from a to z. Of other characters
/// the result is named, since the Unicode tables are its definition.
#[verifier::external_body]
fn to_lowercase(character: char) -> (text: String)
    ensures
        text@ == lowercase_chars(character),
        is_capital_letter(character) ==> text@ == seq![small_letter(character)],
{
    character.to_lowercase().to_string()
}

/// `char::is_uppercase`: among the ASCII characters, the letters from A to Z are. Of other
/// characters the result is named, since the Unicode tables are its definition.
#[verifier::external_body]
fn is_uppercase(character: char) -> (upper: bool)
    ensures
        upper == is_uppercase_char(character),
        character as u32 <= 127 ==> upper == is_capital_letter(character),
{
    character.is_uppercase()
}

/// The characters a character is in upper case.
pub open spec fn upper_case(character: char) -> Seq<char> {
    if is_small_letter(character) {
        seq![capital_letter(character)]
    } else {
        uppercase_chars(character)
    }
}

/// The characters a character is in lower case.
pub open spec fn lower_case(character: char) -> Seq<char> {
    if is_capital_letter(character) {
        seq![small_letter(character)]
    } else {
        lowercase_chars(character)
    }
}

/// Whether a character is in upper case.
pub open spec fn in_upper_case(character: char) -> bool {
    if character as u32 <= 127 {
        is_capital_letter(character)
    } else {
        is_uppercase_char(character)
    }
}

/// `String::push` appends one character.
pub assume_specification[ std::string::String::push ](text: &mut std::string::String, character: char)
    ensures
        final(text)@ == old(text)@.push(character),
;

/// The words of a text: what stands between its underscores, empty words too.
pub open spec fn words_of(text: Seq<char>) -> Seq<Seq<char>>
    decreases text.len(),
{
    if text.len() == 0 {
        seq![Seq::empty()]
    } else {
        let words = words_of(text.drop_last());
        if text.last() == '_' {
            words.push(Seq::empty())
        } else {
            words.drop_last().push(words.last().push(text.last()))
        }
    }
}

/// A word that begins with a capital instead of its first character.
pub open spec fn capitalized(word: Seq<char>, capital: Seq<char>) -> Seq<char> {
    if word.len() == 0 {
        Seq::empty()
    } else {
        capital + word.drop_first()
    }
}

/// Some words, each with its capital, written together.
pub open spec fn run_together(words: Seq<Seq<char>>, capitals: Seq<Seq<char>>) -> Seq<char>
    decreases words.len(),
{
    if words.len() == 0 {
        Seq::empty()
    } else {
        run_together(words.drop_last(), capitals.drop_last()) + capitalized(
            words.last(),
            capitals.last(),
        )
    }
}

/// What a word begins with when it is capitalized.
pub open spec fn capital_of(word: Seq<char>) -> Seq<char> {
    if word.len() == 0 {
        Seq::empty()
    } else {
        upper_case(word[0])
    }
}

/// A name of words behind underscores, as one of capitalized words.
pub open spec fn spec_pascal_case(snake: Seq<char>) -> Seq<char> {
    run_together(words_of(snake), words_of(snake).map_values(|word: Seq<char>| capital_of(word)))
}

/// What some texts hold, in order.
pub open spec fn texts_of(texts: Seq<String>) -> Seq<Seq<char>> {
    texts.map_values(|text: String| text@)
}

/// What some words hold, in order.
pub open spec fn word_views(words: Seq<Vec<char>>) -> Seq<Seq<char>> {
    words.map_values(|word: Vec<char>| word@)
}

/// Take a text apart at its underscores.
pub fn split_words(text: &str) -> (words: Vec<Vec<char>>)
    ensures
        word_views(words@) == words_of(text@),
{
    let letters: Vec<char> = characters(text);
    let mut words: Vec<Vec<char>> = Vec::new();
    let mut word: Vec<char> = Vec::new();
    let mut i: usize = 0;
    assert(letters@.take(0) =~= Seq::<char>::empty());
    assert(word_views(words@).push(word@) =~= seq![Seq::<char>::empty()]);
    while i < letters.len()
        invariant
            i <= letters.len(),
            word_views(words@).push(word@) == words_of(letters@.take(i as int)),
        decreases letters.len() - i,
    {
        let letter: char = letters[i];
        let ghost before = words_of(letters@.take(i as int));
        assert(letters@.take(i as int + 1).drop_last() =~= letters@.take(i as int));
        assert(before.drop_last() =~= word_views(words@));
        if letter == '_' {
            words.push(word);
            word = Vec::new();
            assert(word_views(words@).push(word@) =~= before.push(Seq::empty()));
        } else {
            word.push(letter);
            assert(word_views(words@).push(word@) =~= before.drop_last().push(
                before.last().push(letter),
            ));
        }
        i += 1;
    }
    assert(letters@.take(i as int) =~= text@);
    let ghost unfinished = word_views(words@).push(word@);
    words.push(word);
    assert(word_views(words@) =~= unfinished);
    words
}

/// Write words together, each with the capital given for it.
pub fn join_words(words: &Vec<Vec<char>>, capitals: &Vec<String>) -> (name: String)
    requires
        words@.len() == capitals@.len(),
    ensures
        name@ == run_together(word_views(words@), texts_of(capitals@)),
{
    let mut name = "".to_owned();
    proof {
        reveal_strlit("");
    }
    let mut i: usize = 0;
    let ghost views = word_views(words@);
    let ghost texts = texts_of(capitals@);
    assert(name@ =~= run_together(views.take(0), texts.take(0)));
    while i < words.len()
        invariant
            i <= words.len(),
            words@.len() == capitals@.len(),
            views == word_views(words@),
            texts == texts_of(capitals@),
            name@ == run_together(views.take(i as int), texts.take(i as int)),
        decreases words.len() - i,
    {
        let word: &Vec<char> = &words[i];
        let ghost before = name@;
        assert(views.take(i as int + 1).drop_last() =~= views.take(i as int));
        assert(texts.take(i as int + 1).drop_last() =~= texts.take(i as int));
        if word.len() > 0 {
            name.append(capitals[i].as_str());
            let ghost capital = before + capitals@[i as int]@;
            let mut j: usize = 1;
            assert(word@.subrange(1, 1) =~= Seq::<char>::empty());
            while j < word.len()
                invariant
                    1 <= j <= word.len(),
                    name@ == capital + word@.subrange(1, j as int),
                decreases word.len() - j,
            {
                name.push(word[j]);
                assert(word@.subrange(1, j as int + 1) =~= word@.subrange(1, j as int).push(
                    word@[j as int],
                ));
                j += 1;
            }
            assert(word@.subrange(1, j as int) =~= word@.drop_first());
        }
        assert(name@ =~= before + capitalized(word@, texts[i as int]));
        i += 1;
    }
    assert(views.take(i as int) =~= views);
    assert(texts.take(i as int) =~= texts);
    name
}

/// The name of a method, as the name of the message it takes.
pub fn pascal_case(snake: &str) -> (pascal: String)
    ensures
        pascal@ == spec_pascal_case(snake@),
{
    let words: Vec<Vec<char>> = split_words(snake);
    let mut capitals: Vec<String> = Vec::new();
    let mut i: usize = 0;
    while i < words.len()
        invariant
            i <= words.len(),
            capitals@.len() == i,
            forall|j: int|
                0 <= j < i ==> (#[trigger] capitals@[j])@ == capital_of(words@[j]@),
        decreases words.len() - i,
    {
        let word: &Vec<char> = &words[i];
        if word.len() > 0 {
            capitals.push(to_uppercase(word[0]));
        } else {
            let nothing = "".to_owned();
            proof {
                reveal_strlit("");
            }
            assert(nothing@ =~= Seq::<char>::empty());
            capitals.push(nothing);
        }
        i += 1;
    }
    assert(texts_of(capitals@) =~= words_of(snake@).map_values(
        |word: Seq<char>| capital_of(word),
    )) by {
        assert forall|j: int| 0 <= j < capitals@.len() implies #[trigger] texts_of(capitals@)[j]
            == capital_of(words_of(snake@)[j]) by {
            assert(word_views(words@)[j] == words@[j]@);
        }
    }
    join_words(&words, &capitals)
}

/// Characters written in lower case where their lower case is given, each such one but the
/// first behind an underscore.
pub open spec fn lowered(letters: Seq<char>, lower: Seq<Option<Seq<char>>>) -> Seq<char>
    decreases letters.len(),
{
    if letters.len() == 0 {
        Seq::empty()
    } else {
        let before = lowered(letters.drop_last(), lower.drop_last());
        match lower.last() {
            Some(text) => if letters.len() > 1 {
                before.push('_') + text
            } else {
                before + text
            },
            None => before.push(letters.last()),
        }
    }
}

/// The lower case of a character in upper case.
pub open spec fn lower_of(letter: char) -> Option<Seq<char>> {
    if in_upper_case(letter) {
        Some(lower_case(letter))
    } else {
        None
    }
}

/// A name of capitalized words, as one of words behind underscores.
pub open spec fn spec_snake_case(pascal: Seq<char>) -> Seq<char> {
    lowered(pascal, pascal.map_values(|letter: char| lower_of(letter)))
}

/// What some optional texts hold, in order.
pub open spec fn optional_texts(texts: Seq<Option<String>>) -> Seq<Option<Seq<char>>> {
    texts.map_values(
        |text: Option<String>|
            match text {
                Some(text) => Some(text@),
                None => None,
            },
    )
}

/// Write characters with the lower case given for those in upper case.
pub fn join_letters(letters: &Vec<char>, lower: &Vec<Option<String>>) -> (name: String)
    requires
        letters@.len() == lower@.len(),
    ensures
        name@ == lowered(letters@, optional_texts(lower@)),
{
    let mut name = "".to_owned();
    proof {
        reveal_strlit("");
    }
    let mut i: usize = 0;
    let ghost texts = optional_texts(lower@);
    assert(name@ =~= lowered(letters@.take(0), texts.take(0)));
    while i < letters.len()
        invariant
            i <= letters.len(),
            letters@.len() == lower@.len(),
            texts == optional_texts(lower@),
            name@ == lowered(letters@.take(i as int), texts.take(i as int)),
        decreases letters.len() - i,
    {
        assert(letters@.take(i as int + 1).drop_last() =~= letters@.take(i as int));
        assert(texts.take(i as int + 1).drop_last() =~= texts.take(i as int));
        match &lower[i] {
            Some(text) => {
                if i > 0 {
                    name.push('_');
                }
                name.append(text.as_str());
            },
            None => {
                name.push(letters[i]);
            },
        }
        i += 1;
    }
    assert(letters@.take(i as int) =~= letters@);
    assert(texts.take(i as int) =~= texts);
    name
}

/// The name of a trait, as part of the name of a function.
pub fn snake_case(pascal: &str) -> (snake: String)
    ensures
        snake@ == spec_snake_case(pascal@),
{
    let letters: Vec<char> = characters(pascal);
    let mut lower: Vec<Option<String>> = Vec::new();
    let mut i: usize = 0;
    while i < letters.len()
        invariant
            i <= letters.len(),
            optional_texts(lower@) == letters@.take(i as int).map_values(
                |letter: char| lower_of(letter),
            ),
        decreases letters.len() - i,
    {
        let ghost before = lower@;
        if is_uppercase(letters[i]) {
            lower.push(Some(to_lowercase(letters[i])));
        } else {
            lower.push(None);
        }
        assert(optional_texts(lower@) =~= optional_texts(before).push(
            lower_of(letters@[i as int]),
        ));
        assert(letters@.take(i as int + 1) =~= letters@.take(i as int).push(letters@[i as int]));
        assert(optional_texts(lower@) =~= letters@.take(i as int + 1).map_values(
            |letter: char| lower_of(letter),
        ));
        i += 1;
    }
    assert(letters@.take(i as int) =~= letters@);
    assert(optional_texts(lower@).len() == lower@.len());
    join_letters(&letters, &lower)
}

/// Whether a word begins with a letter from a to z, and goes on with such letters and
/// digits.
pub open spec fn is_plain_word(word: Seq<char>) -> bool {
    &&& word.len() > 0
    &&& is_small_letter(word[0])
    &&& forall|i: int|
        0 <= i < word.len() ==> is_small_letter(#[trigger] word[i]) || ('0' <= word[i] && word[i]
            <= '9')
}

/// Whether a name is one of plain words behind underscores.
pub open spec fn is_plain_name(name: Seq<char>) -> bool {
    all_plain(words_of(name))
}

/// Whether every word is plain.
pub open spec fn all_plain(words: Seq<Seq<char>>) -> bool {
    forall|i: int| 0 <= i < words.len() ==> is_plain_word(#[trigger] words[i])
}

/// Some words behind underscores.
pub open spec fn underscored(words: Seq<Seq<char>>) -> Seq<char>
    decreases words.len(),
{
    if words.len() == 0 {
        Seq::empty()
    } else if words.len() == 1 {
        words[0]
    } else {
        underscored(words.drop_last()).push('_') + words.last()
    }
}

/// The words of a text, written behind underscores again, are the text.
proof fn lemma_words_make_the_text(text: Seq<char>)
    ensures
        underscored(words_of(text)) == text,
        words_of(text).len() > 0,
    decreases text.len(),
{
    if text.len() == 0 {
        assert(underscored(words_of(text)) =~= text);
    } else {
        let rest = text.drop_last();
        let words = words_of(rest);
        lemma_words_make_the_text(rest);
        assert(rest.push(text.last()) =~= text);
        if text.last() == '_' {
            assert(words.push(Seq::empty()).drop_last() =~= words);
            assert(underscored(words_of(text)) =~= text);
        } else {
            let longer = words.last().push(text.last());
            assert(words.drop_last().push(longer).drop_last() =~= words.drop_last());
            assert(underscored(words_of(text)) =~= text);
        }
    }
}

/// What one more character adds to a name in lower case.
proof fn lemma_snake_goes_on(name: Seq<char>, letter: char)
    ensures
        spec_snake_case(name.push(letter)) == (match lower_of(letter) {
            Some(text) => if name.len() > 0 {
                spec_snake_case(name).push('_') + text
            } else {
                spec_snake_case(name) + text
            },
            None => spec_snake_case(name).push(letter),
        }),
{
    let longer = name.push(letter);
    let each = |letter: char| lower_of(letter);
    assert(longer.drop_last() =~= name);
    assert(longer.map_values(each).drop_last() =~= name.map_values(each));
    assert(longer.map_values(each).last() == lower_of(letter));
}

/// A plain word, capitalized behind a name, is the word again in lower case, behind an
/// underscore if the name is not empty.
proof fn lemma_word_comes_back(name: Seq<char>, word: Seq<char>, taken: int)
    requires
        is_plain_word(word),
        1 <= taken <= word.len(),
    ensures
        spec_snake_case(name + capitalized(word, capital_of(word)).take(taken)) == (if name.len()
            > 0 {
            spec_snake_case(name).push('_')
        } else {
            spec_snake_case(name)
        }) + word.take(taken),
    decreases taken,
{
    let written = capitalized(word, capital_of(word));
    assert(written.len() == word.len());
    if taken == 1 {
        let capital = capital_letter(word[0]);
        assert(written[0] == capital);
        assert(is_capital_letter(capital) && small_letter(capital) == word[0]);
        assert(name + written.take(1) =~= name.push(capital));
        lemma_snake_goes_on(name, capital);
        assert(word.take(1) =~= seq![word[0]]);
    } else {
        let letter = word[taken - 1];
        assert(written[taken - 1] == letter);
        assert(lower_of(letter) is None);
        lemma_word_comes_back(name, word, taken - 1);
        assert(name + written.take(taken) =~= (name + written.take(taken - 1)).push(letter));
        lemma_snake_goes_on(name + written.take(taken - 1), letter);
        assert(word.take(taken) =~= word.take(taken - 1).push(letter));
        assert(((if name.len() > 0 {
            spec_snake_case(name).push('_')
        } else {
            spec_snake_case(name)
        }) + word.take(taken - 1)).push(letter) =~= (if name.len() > 0 {
            spec_snake_case(name).push('_')
        } else {
            spec_snake_case(name)
        }) + word.take(taken));
    }
}

proof fn lemma_words_come_back(words: Seq<Seq<char>>)
    requires
        all_plain(words),
    ensures
        ({
            let capitals = words.map_values(|word: Seq<char>| capital_of(word));
            let written = run_together(words, capitals);
            &&& spec_snake_case(written) == underscored(words)
            &&& words.len() > 0 ==> written.len() > 0
        }),
    decreases words.len(),
{
    let each = |word: Seq<char>| capital_of(word);
    let capitals = words.map_values(each);
    if words.len() > 0 {
        let rest = words.drop_last();
        let last = words.last();
        assert forall|i: int| 0 <= i < rest.len() implies is_plain_word(#[trigger] rest[i]) by {
            assert(rest[i] == words[i]);
        }
        assert(is_plain_word(words[words.len() - 1]));
        lemma_words_come_back(rest);
        assert(capitals.drop_last() =~= rest.map_values(each));
        let before = run_together(rest, rest.map_values(each));
        let written = capitalized(last, capital_of(last));
        assert(written.len() == last.len());
        lemma_word_comes_back(before, last, last.len() as int);
        assert(written.take(last.len() as int) =~= written);
        assert(last.take(last.len() as int) =~= last);
        assert(run_together(words, capitals) == before + written);
        assert(spec_snake_case(before + written) =~= underscored(words));
    }
}

/// A plain name is found again in the name of the message made of it.
pub proof fn plain_names_come_back(name: Seq<char>)
    requires
        is_plain_name(name),
    ensures
        spec_snake_case(spec_pascal_case(name)) == name,
{
    lemma_words_come_back(words_of(name));
    lemma_words_make_the_text(name);
}

proof fn lemma_word_without_breaks(before: Seq<char>, word: Seq<char>)
    requires
        !word.contains('_'),
    ensures
        words_of(word) == seq![word],
        words_of(before.push('_') + word) == words_of(before).push(word),
    decreases word.len(),
{
    let name = before.push('_') + word;
    if word.len() == 0 {
        assert(word =~= Seq::<char>::empty());
        assert(words_of(word) =~= seq![word]);
        assert(name.drop_last() =~= before);
        assert(words_of(name) =~= words_of(before).push(word));
    } else {
        let shorter = word.drop_last();
        assert(word.last() != '_') by {
            assert(word[word.len() - 1] == word.last());
        }
        assert(!shorter.contains('_')) by {
            assert forall|i: int| 0 <= i < shorter.len() implies shorter[i] != '_' by {
                assert(shorter[i] == word[i]);
            }
        }
        lemma_word_without_breaks(before, shorter);
        assert(name.drop_last() =~= before.push('_') + shorter);
        assert(shorter.push(word.last()) =~= word);
        assert(words_of(word) =~= seq![word]);
        assert(words_of(name) =~= words_of(before).push(word));
    }
}

/// Each word of a name starts with a capital and goes on as it is, and the breaks between
/// words go: this holds of a name that is one word, and of one more word behind any name.
pub proof fn words_start_with_a_capital(before: Seq<char>, word: Seq<char>)
    requires
        !word.contains('_'),
        word.len() > 0 ==> 'a' <= word[0] <= 'z',
    ensures
        word.len() > 0 ==> spec_pascal_case(word) == seq![(word[0] as int - 'a' as int + 'A' as int)
            as char] + word.drop_first(),
        word.len() > 0 ==> spec_pascal_case(before.push('_') + word) == spec_pascal_case(before)
            + seq![(word[0] as int - 'a' as int + 'A' as int) as char] + word.drop_first(),
        word.len() == 0 ==> spec_pascal_case(word).len() == 0,
        word.len() == 0 ==> spec_pascal_case(before.push('_') + word) == spec_pascal_case(before),
{
    lemma_word_without_breaks(before, word);
    let capitals = |words: Seq<Seq<char>>| words.map_values(|word: Seq<char>| capital_of(word));
    let one = seq![word];
    let words = words_of(before);
    let more = words.push(word);
    assert(one.drop_last() =~= Seq::<Seq<char>>::empty());
    assert(capitals(one).drop_last() =~= Seq::<Seq<char>>::empty());
    assert(run_together(one.drop_last(), capitals(one).drop_last()) =~= Seq::<char>::empty());
    assert(more.drop_last() =~= words);
    assert(capitals(more).drop_last() =~= capitals(words));
    assert(capitals(more).last() == capital_of(word));
    assert(spec_pascal_case(word) =~= capitalized(word, capital_of(word)));
    assert(spec_pascal_case(before.push('_') + word) =~= spec_pascal_case(before) + capitalized(
        word,
        capital_of(word),
    ));
    if word.len() > 0 {
        assert(capital_of(word) =~= seq![(word[0] as int - 'a' as int + 'A' as int) as char]);
        assert(spec_pascal_case(before.push('_') + word) =~= spec_pascal_case(before)
            + seq![(word[0] as int - 'a' as int + 'A' as int) as char] + word.drop_first());
    }
}

/// Each capital of a name becomes small and starts a word of its own, behind a break unless
/// it is the first letter; every other plain letter stays.
pub proof fn capitals_start_a_word(before: Seq<char>, letter: char)
    requires
        letter as int <= 127,
    ensures
        'A' <= letter <= 'Z' && before.len() > 0 ==> spec_snake_case(before.push(letter))
            == spec_snake_case(before).push('_').push(
            (letter as int - 'A' as int + 'a' as int) as char,
        ),
        'A' <= letter <= 'Z' && before.len() == 0 ==> spec_snake_case(before.push(letter))
            == seq![(letter as int - 'A' as int + 'a' as int) as char],
        !('A' <= letter <= 'Z') ==> spec_snake_case(before.push(letter)) == spec_snake_case(
            before,
        ).push(letter),
        before.len() == 0 ==> spec_snake_case(before).len() == 0,
{
    let lower = |letters: Seq<char>| letters.map_values(|letter: char| lower_of(letter));
    let more = before.push(letter);
    assert(more.drop_last() =~= before);
    assert(lower(more).drop_last() =~= lower(before));
    assert(lower(more).last() == lower_of(letter));
    let small = (letter as int - 'A' as int + 'a' as int) as char;
    if 'A' <= letter <= 'Z' {
        assert(lower_of(letter) == Some(seq![small]));
        if before.len() > 0 {
            assert(spec_snake_case(more) =~= spec_snake_case(before).push('_').push(small));
        } else {
            assert(spec_snake_case(more) =~= seq![small]);
        }
    }
}

} // verus!
