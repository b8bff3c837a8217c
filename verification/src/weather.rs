//! Weather condition labels: which icon shows a Home Assistant
//! `weather.*` condition, and how the condition is worded.

use vstd::prelude::*;
use std::borrow::Cow;
use crate::text::{
    append_chars, append_str, chars_are, chars_of, lemma_split_at_separator, lemma_split_without_separator, split_any,
    split_spec, string_of, sub_chars, views,
};

verus! {

/// The icon key for a Home Assistant weather condition. Several conditions
/// share an icon; anything unknown gets `"default"`.
pub open spec fn icon_key_spec(c: Seq<char>) -> Seq<char> {
    if c == "sunny"@ {
        "sunny"@
    } else if c == "clear-night"@ {
        "clear-night"@
    } else if c == "partlycloudy"@ {
        "partlycloudy"@
    } else if c == "cloudy"@ {
        "cloudy"@
    } else if c == "rainy"@ {
        "rainy"@
    } else if c == "pouring"@ {
        "pouring"@
    } else if c == "lightning"@ || c == "lightning-rainy"@ {
        "lightning"@
    } else if c == "snowy"@ || c == "snowy-rainy"@ {
        "snowy"@
    } else if c == "fog"@ || c == "exceptional"@ {
        "fog"@
    } else if c == "windy"@ || c == "windy-variant"@ {
        "windy"@
    } else if c == "hail"@ {
        "hail"@
    } else {
        "default"@
    }
}

/// Map a Home Assistant weather condition to one of the icon keys.
pub fn icon_key_for(condition: &str) -> (r: &'static str)
    ensures
        r@ == icon_key_spec(condition@),
{
    let c = chars_of(condition);
    let c = c.as_slice();
    if chars_are(c, "sunny") {
        "sunny"
    } else if chars_are(c, "clear-night") {
        "clear-night"
    } else if chars_are(c, "partlycloudy") {
        "partlycloudy"
    } else if chars_are(c, "cloudy") {
        "cloudy"
    } else if chars_are(c, "rainy") {
        "rainy"
    } else if chars_are(c, "pouring") {
        "pouring"
    } else if chars_are(c, "lightning") || chars_are(c, "lightning-rainy") {
        "lightning"
    } else if chars_are(c, "snowy") || chars_are(c, "snowy-rainy") {
        "snowy"
    } else if chars_are(c, "fog") || chars_are(c, "exceptional") {
        "fog"
    } else if chars_are(c, "windy") || chars_are(c, "windy-variant") {
        "windy"
    } else if chars_are(c, "hail") {
        "hail"
    } else {
        "default"
    }
}

/// The icon keys there are icon files for.
pub open spec fn icon_keys() -> Seq<Seq<char>> {
    seq![
        "sunny"@,
        "clear-night"@,
        "partlycloudy"@,
        "cloudy"@,
        "rainy"@,
        "pouring"@,
        "lightning"@,
        "snowy"@,
        "fog"@,
        "windy"@,
        "hail"@,
        "default"@,
    ]
}

/// Whatever the condition, the icon key is one of the keys with an icon file.
pub proof fn law_icon_key_has_icon(c: Seq<char>)
    ensures
        icon_keys().contains(icon_key_spec(c)),
{
    let k = icon_key_spec(c);
    let keys = icon_keys();
    if k == "sunny"@ {
        assert(keys[0] == k);
    } else if k == "clear-night"@ {
        assert(keys[1] == k);
    } else if k == "partlycloudy"@ {
        assert(keys[2] == k);
    } else if k == "cloudy"@ {
        assert(keys[3] == k);
    } else if k == "rainy"@ {
        assert(keys[4] == k);
    } else if k == "pouring"@ {
        assert(keys[5] == k);
    } else if k == "lightning"@ {
        assert(keys[6] == k);
    } else if k == "snowy"@ {
        assert(keys[7] == k);
    } else if k == "fog"@ {
        assert(keys[8] == k);
    } else if k == "windy"@ {
        assert(keys[9] == k);
    } else if k == "hail"@ {
        assert(keys[10] == k);
    } else {
        assert(keys[11] == k);
    }
}

/// The wording for the fifteen conditions Home Assistant documents.
pub open spec fn known_condition_name(c: Seq<char>) -> Option<Seq<char>> {
    if c == "sunny"@ {
        Some("Sunny"@)
    } else if c == "clear-night"@ {
        Some("Clear"@)
    } else if c == "partlycloudy"@ {
        Some("Partly Cloudy"@)
    } else if c == "cloudy"@ {
        Some("Cloudy"@)
    } else if c == "rainy"@ {
        Some("Rainy"@)
    } else if c == "pouring"@ {
        Some("Pouring"@)
    } else if c == "lightning"@ {
        Some("Thunderstorms"@)
    } else if c == "lightning-rainy"@ {
        Some("Thunderstorms & Rain"@)
    } else if c == "snowy"@ {
        Some("Snowy"@)
    } else if c == "snowy-rainy"@ {
        Some("Snow & Rain"@)
    } else if c == "fog"@ {
        Some("Foggy"@)
    } else if c == "exceptional"@ {
        Some("Severe Weather"@)
    } else if c == "windy"@ {
        Some("Windy"@)
    } else if c == "windy-variant"@ {
        Some("Windy"@)
    } else if c == "hail"@ {
        Some("Hail"@)
    } else {
        None
    }
}

/// The uppercase form of `c`, as `char::to_uppercase` yields it (one or more chars).
pub uninterp spec fn uppercase_of(c: char) -> Seq<char>;

/// `char::to_uppercase` from std, collected into a `String`. Its result
/// depends on the character alone (Unicode uppercase mapping, possibly several
/// chars); the contract names it `uppercase_of` and states nothing further.
#[verifier::external_body]
fn char_uppercase(c: char) -> (r: String)
    ensures
        r@ == uppercase_of(c),
{
    c.to_uppercase().collect::<String>()
}

/// A word with its first character replaced by `upper_first` (empty stays empty).
pub open spec fn capitalized_with(w: Seq<char>, upper_first: Seq<char>) -> Seq<char> {
    if w.len() == 0 {
        Seq::empty()
    } else {
        upper_first + w.drop_first()
    }
}

/// The words, each with its first character replaced by the matching entry of
/// `firsts`, joined by single spaces.
pub open spec fn joined_title(words: Seq<Seq<char>>, firsts: Seq<Seq<char>>) -> Seq<char>
    decreases words.len(),
{
    if words.len() == 0 {
        Seq::empty()
    } else if words.len() == 1 {
        capitalized_with(words[0], firsts[0])
    } else {
        joined_title(words.drop_last(), firsts.drop_last()) + seq![' '] + capitalized_with(words.last(), firsts.last())
    }
}

/// The uppercase form of each word's first character (empty for an empty word).
pub open spec fn first_uppercases(words: Seq<Seq<char>>) -> Seq<Seq<char>> {
    words.map_values(|w: Seq<char>| if w.len() > 0 { uppercase_of(w[0]) } else { Seq::<char>::empty() })
}

/// The words, each capitalized, joined by single spaces.
pub open spec fn title_words(words: Seq<Seq<char>>) -> Seq<char> {
    joined_title(words, first_uppercases(words))
}

/// The wording of a condition: the fixed label for a known one, and otherwise
/// the condition's `-`/`_`-separated words capitalized and joined by spaces
/// ("some-condition" reads "Some Condition").
pub open spec fn display_name_spec(c: Seq<char>) -> Seq<char> {
    match known_condition_name(c) {
        Some(name) => name,
        None => title_words(split_spec(c, seq!['-', '_'])),
    }
}

fn uppercase_firsts(words: &Vec<Vec<char>>) -> (firsts: Vec<String>)
    ensures
        firsts@.len() == words@.len(),
        firsts@.map_values(|f: String| f@) == first_uppercases(views(words@)),
{
    let n = words.len();
    let mut firsts: Vec<String> = Vec::new();
    for i in 0..n
        invariant
            n == words@.len(),
            firsts@.len() == i,
            forall|k: int| 0 <= k < i ==> #[trigger] firsts@[k]@ == first_uppercases(views(words@))[k],
    {
        let w = &words[i];
        let f = if w.len() > 0 { char_uppercase(w[0]) } else { String::new() };
        firsts.push(f);
    }
    assert(firsts@.map_values(|f: String| f@) =~= first_uppercases(views(words@)));
    firsts
}

/// Joins the words with single spaces, each word with its first character
/// replaced by the matching entry of `firsts` (its uppercase form, in
/// `display_name_for`).
pub fn title_case_with(words: &Vec<Vec<char>>, firsts: &Vec<String>) -> (r: String)
    requires
        firsts@.len() == words@.len(),
    ensures
        r@ == joined_title(views(words@), firsts@.map_values(|f: String| f@)),
{
    let ghost wv = views(words@);
    let ghost fv = firsts@.map_values(|f: String| f@);
    let mut out: Vec<char> = Vec::new();
    let n = words.len();
    for i in 0..n
        invariant
            n == words@.len(),
            n == firsts@.len(),
            wv == views(words@),
            fv == firsts@.map_values(|f: String| f@),
            out@ == joined_title(wv.take(i as int), fv.take(i as int)),
    {
        if i > 0 {
            out.push(' ');
        }
        let w = &words[i];
        let ghost before = out@;
        if w.len() > 0 {
            append_str(&mut out, firsts[i].as_str());
            let tail = sub_chars(w.as_slice(), 1, w.len());
            append_chars(&mut out, tail.as_slice());
        }
        proof {
            assert(wv.take(i + 1).drop_last() == wv.take(i as int));
            assert(fv.take(i + 1).drop_last() == fv.take(i as int));
            assert(wv.take(i + 1).last() == w@);
            assert(fv.take(i + 1).last() == firsts@[i as int]@);
            if w@.len() > 0 {
                assert(w@.subrange(1, w@.len() as int) == w@.drop_first());
            }
            let piece = capitalized_with(w@, firsts@[i as int]@);
            if i == 0 {
                assert(out@ =~= piece);
            } else {
                assert(out@ =~= joined_title(wv.take(i as int), fv.take(i as int)) + seq![' '] + piece);
            }
        }
    }
    assert(wv.take(n as int) == wv);
    assert(fv.take(n as int) == fv);
    string_of(out.as_slice())
}

fn title_case(condition: &str) -> (r: String)
    ensures
        r@ == title_words(split_spec(condition@, seq!['-', '_'])),
{
    let c = chars_of(condition);
    let seps: Vec<char> = vec!['-', '_'];
    assert(seps@ =~= seq!['-', '_']);
    let words = split_any(c.as_slice(), seps.as_slice());
    let firsts = uppercase_firsts(&words);
    title_case_with(&words, &firsts)
}

/// Human-readable label for a raw Home Assistant condition ("partlycloudy" ->
/// "Partly Cloudy"). Kept separate from `icon_key_for`: icon selection and
/// wording group the conditions differently. The fixed labels of the known
/// conditions are borrowed; only the fallback builds a new string.
pub fn display_name_for(condition: &str) -> (r: Cow<'static, str>)
    ensures
        r@ == display_name_spec(condition@),
        (r matches Cow::Borrowed(_)) <==> known_condition_name(condition@) is Some,
{
    let c = chars_of(condition);
    let c = c.as_slice();
    let fixed: Option<&str> = if chars_are(c, "sunny") {
        Some("Sunny")
    } else if chars_are(c, "clear-night") {
        Some("Clear")
    } else if chars_are(c, "partlycloudy") {
        Some("Partly Cloudy")
    } else if chars_are(c, "cloudy") {
        Some("Cloudy")
    } else if chars_are(c, "rainy") {
        Some("Rainy")
    } else if chars_are(c, "pouring") {
        Some("Pouring")
    } else if chars_are(c, "lightning") {
        Some("Thunderstorms")
    } else if chars_are(c, "lightning-rainy") {
        Some("Thunderstorms & Rain")
    } else if chars_are(c, "snowy") {
        Some("Snowy")
    } else if chars_are(c, "snowy-rainy") {
        Some("Snow & Rain")
    } else if chars_are(c, "fog") {
        Some("Foggy")
    } else if chars_are(c, "exceptional") {
        Some("Severe Weather")
    } else if chars_are(c, "windy") {
        Some("Windy")
    } else if chars_are(c, "windy-variant") {
        Some("Windy")
    } else if chars_are(c, "hail") {
        Some("Hail")
    } else {
        None
    };
    match fixed {
        Some(name) => Cow::Borrowed(name),
        None => Cow::Owned(title_case(condition)),
    }
}

/// The fifteen weather conditions that Home Assistant documents.
pub open spec fn documented_conditions() -> Seq<Seq<char>> {
    seq![
        "sunny"@,
        "clear-night"@,
        "partlycloudy"@,
        "cloudy"@,
        "rainy"@,
        "pouring"@,
        "lightning"@,
        "lightning-rainy"@,
        "snowy"@,
        "snowy-rainy"@,
        "fog"@,
        "exceptional"@,
        "windy"@,
        "windy-variant"@,
        "hail"@,
    ]
}

/// Every documented condition has its own icon key, shared only within
/// the families lightning / lightning-rainy, snowy / snowy-rainy, fog /
/// exceptional and windy / windy-variant; exactly the conditions that are not
/// documented get `"default"`.
pub proof fn law_icon_key_per_condition(c: Seq<char>)
    ensures
        icon_key_spec("sunny"@) == "sunny"@,
        icon_key_spec("clear-night"@) == "clear-night"@,
        icon_key_spec("partlycloudy"@) == "partlycloudy"@,
        icon_key_spec("cloudy"@) == "cloudy"@,
        icon_key_spec("rainy"@) == "rainy"@,
        icon_key_spec("pouring"@) == "pouring"@,
        icon_key_spec("lightning"@) == "lightning"@,
        icon_key_spec("lightning-rainy"@) == "lightning"@,
        icon_key_spec("snowy"@) == "snowy"@,
        icon_key_spec("snowy-rainy"@) == "snowy"@,
        icon_key_spec("fog"@) == "fog"@,
        icon_key_spec("exceptional"@) == "fog"@,
        icon_key_spec("windy"@) == "windy"@,
        icon_key_spec("windy-variant"@) == "windy"@,
        icon_key_spec("hail"@) == "hail"@,
        icon_key_spec(c) == "default"@ <==> !documented_conditions().contains(c),
{
    reveal_strlit("clear-night");
    assert("clear-night"@.len() == 11);
    reveal_strlit("cloudy");
    assert("cloudy"@.len() == 6);
    reveal_strlit("default");
    assert("default"@.len() == 7);
    reveal_strlit("exceptional");
    assert("exceptional"@.len() == 11);
    reveal_strlit("fog");
    assert("fog"@.len() == 3);
    reveal_strlit("hail");
    assert("hail"@.len() == 4);
    reveal_strlit("lightning");
    assert("lightning"@.len() == 9);
    reveal_strlit("lightning-rainy");
    assert("lightning-rainy"@.len() == 15);
    reveal_strlit("partlycloudy");
    assert("partlycloudy"@.len() == 12);
    reveal_strlit("pouring");
    assert("pouring"@.len() == 7);
    reveal_strlit("rainy");
    assert("rainy"@.len() == 5);
    reveal_strlit("snowy");
    assert("snowy"@.len() == 5);
    reveal_strlit("snowy-rainy");
    assert("snowy-rainy"@.len() == 11);
    reveal_strlit("sunny");
    assert("sunny"@.len() == 5);
    reveal_strlit("windy");
    assert("windy"@.len() == 5);
    reveal_strlit("windy-variant");
    assert("windy-variant"@.len() == 13);
    assert("clear-night"@[0] != "exceptional"@[0]);
    assert("clear-night"@[0] != "snowy-rainy"@[0]);
    assert("default"@[0] != "pouring"@[0]);
    assert("exceptional"@[0] != "snowy-rainy"@[0]);
    assert("rainy"@[0] != "snowy"@[0]);
    assert("rainy"@[0] != "sunny"@[0]);
    assert("rainy"@[0] != "windy"@[0]);
    assert("snowy"@[1] != "sunny"@[1]);
    assert("snowy"@[0] != "windy"@[0]);
    assert("sunny"@[0] != "windy"@[0]);
    if documented_conditions().contains(c) {
        let i = choose|i: int| 0 <= i < documented_conditions().len() && documented_conditions()[i] == c;
        assert(0 <= i < 15);
    } else {
        assert(c != documented_conditions()[0]);
        assert(c != documented_conditions()[1]);
        assert(c != documented_conditions()[2]);
        assert(c != documented_conditions()[3]);
        assert(c != documented_conditions()[4]);
        assert(c != documented_conditions()[5]);
        assert(c != documented_conditions()[6]);
        assert(c != documented_conditions()[7]);
        assert(c != documented_conditions()[8]);
        assert(c != documented_conditions()[9]);
        assert(c != documented_conditions()[10]);
        assert(c != documented_conditions()[11]);
        assert(c != documented_conditions()[12]);
        assert(c != documented_conditions()[13]);
        assert(c != documented_conditions()[14]);
    }
}

/// Every documented condition has its own label ("partlycloudy" reads
/// "Partly Cloudy", "snowy-rainy" reads "Snow & Rain"); the fixed labels are
/// those of exactly the documented conditions, and two different documented
/// conditions share a label only for windy and windy-variant.
pub proof fn law_display_name_per_condition(c: Seq<char>, d: Seq<char>)
    ensures
        display_name_spec("sunny"@) == "Sunny"@,
        display_name_spec("clear-night"@) == "Clear"@,
        display_name_spec("partlycloudy"@) == "Partly Cloudy"@,
        display_name_spec("cloudy"@) == "Cloudy"@,
        display_name_spec("rainy"@) == "Rainy"@,
        display_name_spec("pouring"@) == "Pouring"@,
        display_name_spec("lightning"@) == "Thunderstorms"@,
        display_name_spec("lightning-rainy"@) == "Thunderstorms & Rain"@,
        display_name_spec("snowy"@) == "Snowy"@,
        display_name_spec("snowy-rainy"@) == "Snow & Rain"@,
        display_name_spec("fog"@) == "Foggy"@,
        display_name_spec("exceptional"@) == "Severe Weather"@,
        display_name_spec("windy"@) == "Windy"@,
        display_name_spec("windy-variant"@) == "Windy"@,
        display_name_spec("hail"@) == "Hail"@,
        known_condition_name(c) is Some <==> documented_conditions().contains(c),
        documented_conditions().contains(c) && documented_conditions().contains(d) && c != d
            && display_name_spec(c) == display_name_spec(d) ==> (c == "windy"@ && d == "windy-variant"@) || (
        c == "windy-variant"@ && d == "windy"@),
{
    reveal_strlit("Clear");
    assert("Clear"@.len() == 5);
    reveal_strlit("Cloudy");
    assert("Cloudy"@.len() == 6);
    reveal_strlit("Foggy");
    assert("Foggy"@.len() == 5);
    reveal_strlit("Hail");
    assert("Hail"@.len() == 4);
    reveal_strlit("Partly Cloudy");
    assert("Partly Cloudy"@.len() == 13);
    reveal_strlit("Pouring");
    assert("Pouring"@.len() == 7);
    reveal_strlit("Rainy");
    assert("Rainy"@.len() == 5);
    reveal_strlit("Severe Weather");
    assert("Severe Weather"@.len() == 14);
    reveal_strlit("Snow & Rain");
    assert("Snow & Rain"@.len() == 11);
    reveal_strlit("Snowy");
    assert("Snowy"@.len() == 5);
    reveal_strlit("Sunny");
    assert("Sunny"@.len() == 5);
    reveal_strlit("Thunderstorms");
    assert("Thunderstorms"@.len() == 13);
    reveal_strlit("Thunderstorms & Rain");
    assert("Thunderstorms & Rain"@.len() == 20);
    reveal_strlit("Windy");
    assert("Windy"@.len() == 5);
    reveal_strlit("clear-night");
    assert("clear-night"@.len() == 11);
    reveal_strlit("cloudy");
    assert("cloudy"@.len() == 6);
    reveal_strlit("default");
    assert("default"@.len() == 7);
    reveal_strlit("exceptional");
    assert("exceptional"@.len() == 11);
    reveal_strlit("fog");
    assert("fog"@.len() == 3);
    reveal_strlit("hail");
    assert("hail"@.len() == 4);
    reveal_strlit("lightning");
    assert("lightning"@.len() == 9);
    reveal_strlit("lightning-rainy");
    assert("lightning-rainy"@.len() == 15);
    reveal_strlit("partlycloudy");
    assert("partlycloudy"@.len() == 12);
    reveal_strlit("pouring");
    assert("pouring"@.len() == 7);
    reveal_strlit("rainy");
    assert("rainy"@.len() == 5);
    reveal_strlit("snowy");
    assert("snowy"@.len() == 5);
    reveal_strlit("snowy-rainy");
    assert("snowy-rainy"@.len() == 11);
    reveal_strlit("sunny");
    assert("sunny"@.len() == 5);
    reveal_strlit("windy");
    assert("windy"@.len() == 5);
    reveal_strlit("windy-variant");
    assert("windy-variant"@.len() == 13);
    assert("clear-night"@[0] != "exceptional"@[0]);
    assert("clear-night"@[0] != "snowy-rainy"@[0]);
    assert("default"@[0] != "pouring"@[0]);
    assert("exceptional"@[0] != "snowy-rainy"@[0]);
    assert("rainy"@[0] != "snowy"@[0]);
    assert("rainy"@[0] != "sunny"@[0]);
    assert("rainy"@[0] != "windy"@[0]);
    assert("snowy"@[1] != "sunny"@[1]);
    assert("snowy"@[0] != "windy"@[0]);
    assert("sunny"@[0] != "windy"@[0]);
    assert("Clear"@[0] != "Foggy"@[0]);
    assert("Clear"@[0] != "Rainy"@[0]);
    assert("Clear"@[0] != "Snowy"@[0]);
    assert("Clear"@[0] != "Sunny"@[0]);
    assert("Clear"@[0] != "Windy"@[0]);
    assert("Foggy"@[0] != "Rainy"@[0]);
    assert("Foggy"@[0] != "Snowy"@[0]);
    assert("Foggy"@[0] != "Sunny"@[0]);
    assert("Foggy"@[0] != "Windy"@[0]);
    assert("Partly Cloudy"@[0] != "Thunderstorms"@[0]);
    assert("Rainy"@[0] != "Snowy"@[0]);
    assert("Rainy"@[0] != "Sunny"@[0]);
    assert("Rainy"@[0] != "Windy"@[0]);
    assert("Snowy"@[1] != "Sunny"@[1]);
    assert("Snowy"@[0] != "Windy"@[0]);
    assert("Sunny"@[0] != "Windy"@[0]);
    if documented_conditions().contains(c) {
        let i = choose|i: int| 0 <= i < documented_conditions().len() && documented_conditions()[i] == c;
        assert(0 <= i < 15);
    } else {
        assert(c != documented_conditions()[0]);
        assert(c != documented_conditions()[1]);
        assert(c != documented_conditions()[2]);
        assert(c != documented_conditions()[3]);
        assert(c != documented_conditions()[4]);
        assert(c != documented_conditions()[5]);
        assert(c != documented_conditions()[6]);
        assert(c != documented_conditions()[7]);
        assert(c != documented_conditions()[8]);
        assert(c != documented_conditions()[9]);
        assert(c != documented_conditions()[10]);
        assert(c != documented_conditions()[11]);
        assert(c != documented_conditions()[12]);
        assert(c != documented_conditions()[13]);
        assert(c != documented_conditions()[14]);
    }
    if documented_conditions().contains(d) {
        let j = choose|j: int| 0 <= j < documented_conditions().len() && documented_conditions()[j] == d;
        assert(0 <= j < 15);
    }
}

/// A word with no `-` or `_` in it splits into itself alone.
proof fn lemma_single_word(w: Seq<char>)
    requires
        forall|i: int| 0 <= i < w.len() ==> w[i] != '-' && w[i] != '_',
    ensures
        split_spec(w, seq!['-', '_']) == seq![w],
{
    let seps = seq!['-', '_'];
    assert forall|i: int| 0 <= i < w.len() implies !seps.contains(#[trigger] w[i]) by {
        if seps.contains(w[i]) {
            let k = choose|k: int| 0 <= k < 2 && seps[k] == w[i];
            assert(w[i] != '-' && w[i] != '_');
        }
    }
    lemma_split_without_separator(w, seps);
}

/// Any other condition is worded by capitalizing each of its `-`/`_`-separated
/// words and joining them with a space: a single word reads with its first
/// character uppercased, and two words joined by `-` or `_` read as the two
/// capitalized words with one space between them.
pub proof fn law_display_name_of_other_conditions(a: Seq<char>, x: char, b: Seq<char>)
    requires
        a.len() > 0,
        b.len() > 0,
        x == '-' || x == '_',
        forall|i: int| 0 <= i < a.len() ==> a[i] != '-' && a[i] != '_',
        forall|i: int| 0 <= i < b.len() ==> b[i] != '-' && b[i] != '_',
    ensures
        known_condition_name(a) is None ==> display_name_spec(a) == uppercase_of(a[0]) + a.drop_first(),
        known_condition_name(a + seq![x] + b) is None ==> display_name_spec(a + seq![x] + b) == uppercase_of(a[0])
            + a.drop_first() + seq![' '] + uppercase_of(b[0]) + b.drop_first(),
{
    let seps = seq!['-', '_'];
    lemma_single_word(a);
    lemma_single_word(b);
    assert(seps.contains(x)) by {
        if x == '-' {
            assert(seps[0] == x);
        } else {
            assert(seps[1] == x);
        }
    }
    lemma_split_at_separator(a, x, b, seps);
    let one = seq![a];
    let two = seq![a] + seq![b];
    assert(two =~= seq![a, b]);
    let f1 = first_uppercases(one);
    let f2 = first_uppercases(two);
    assert(f1[0] == uppercase_of(a[0]));
    assert(f2[0] == uppercase_of(a[0]));
    assert(f2[1] == uppercase_of(b[0]));
    assert(two.drop_last() =~= one);
    assert(f2.drop_last() =~= f1);
    assert(title_words(one) == uppercase_of(a[0]) + a.drop_first());
    assert(title_words(two) == title_words(one) + seq![' '] + (uppercase_of(b[0]) + b.drop_first()));
    assert(uppercase_of(a[0]) + a.drop_first() + seq![' '] + (uppercase_of(b[0]) + b.drop_first()) =~= uppercase_of(a[0])
        + a.drop_first() + seq![' '] + uppercase_of(b[0]) + b.drop_first());
}

} // verus!
