//! What the modifiers of `array_sort` mean, told by their texts alone.

use crate::arguments::sort_options;
use crate::arrays;
use crate::arrays::AnyArray;
use crate::error::ArraySortError;
use crate::options::{
    order_desc, order_nulls_first, read_direction, read_null_placement, SortOptions,
};
use crate::order_laws::{
    asks_descending, asks_nulls_last, first_text, gives, has_good_modifiers, has_strings,
};
use crate::text;
use vstd::prelude::*;

verus! {

/// The same character, or the small letter for a capital one.
pub open spec fn is_letter_of(c: char, capital: char) -> bool {
    ||| c == capital
    ||| 'A' <= capital && capital <= 'Z' && c as u32 == capital as u32 + 32
}

/// `s` is `word` in some mixture of cases. (`word` has no small letters.)
pub open spec fn spells(s: Seq<char>, word: Seq<char>) -> bool {
    &&& s.len() == word.len()
    &&& forall|i: int| 0 <= i < s.len() ==> is_letter_of(#[trigger] s[i], word[i])
}

/// The texts with a given uppercase form are those that spell it.
proof fn lemma_spells(s: Seq<char>, word: Seq<char>)
    requires
        forall|i: int| 0 <= i < word.len() ==> !('a' <= #[trigger] word[i] && word[i] <= 'z'),
    ensures
        (text::ascii_uppercase(s) == word) == spells(s, word),
{
    let upper = text::ascii_uppercase(s);
    if upper == word {
        assert forall|i: int| 0 <= i < s.len() implies is_letter_of(#[trigger] s[i], word[i]) by {
            assert(upper[i] == text::ascii_upper(s[i]));
        }
    }
    if spells(s, word) {
        assert forall|i: int| 0 <= i < s.len() implies #[trigger] upper[i] == word[i] by {
            assert(is_letter_of(s[i], word[i]));
        }
        assert(upper =~= word);
    }
}

/// A direction is `DESC` or `ASC`, in whatever case. `DESC` descends, `ASC` does not, and every
/// other text is an error.
pub proof fn law_directions(modifier: &str, r: Result<bool, ArraySortError>)
    requires
        call_ensures(order_desc, (modifier,), r),
    ensures
        text::uppercase(modifier@) == "DESC"@ ==> r == Ok::<bool, ArraySortError>(true),
        text::uppercase(modifier@) == "ASC"@ ==> r == Ok::<bool, ArraySortError>(false),
        text::uppercase(modifier@) != "DESC"@ && text::uppercase(modifier@) != "ASC"@ ==> r
            == Err::<bool, ArraySortError>(ArraySortError::Direction),
        modifier.is_ascii() ==> {
            &&& (r == Ok::<bool, ArraySortError>(true)) == spells(modifier@, "DESC"@)
            &&& (r == Ok::<bool, ArraySortError>(false)) == spells(modifier@, "ASC"@)
        },
        call_requires(order_desc, (modifier,)),
{
    reveal_strlit("DESC");
    reveal_strlit("ASC");
    lemma_spells(modifier@, "DESC"@);
    lemma_spells(modifier@, "ASC"@);
}

/// A place for the nulls is `NULLS FIRST` or `NULLS LAST`, in whatever case, and every other text
/// is an error.
pub proof fn law_null_placements(modifier: &str, r: Result<bool, ArraySortError>)
    requires
        call_ensures(order_nulls_first, (modifier,), r),
    ensures
        text::uppercase(modifier@) == "NULLS FIRST"@ ==> r == Ok::<bool, ArraySortError>(true),
        text::uppercase(modifier@) == "NULLS LAST"@ ==> r == Ok::<bool, ArraySortError>(false),
        text::uppercase(modifier@) != "NULLS FIRST"@ && text::uppercase(modifier@)
            != "NULLS LAST"@ ==> r == Err::<bool, ArraySortError>(ArraySortError::NullPlacement),
        modifier.is_ascii() ==> {
            &&& (r == Ok::<bool, ArraySortError>(true)) == spells(modifier@, "NULLS FIRST"@)
            &&& (r == Ok::<bool, ArraySortError>(false)) == spells(modifier@, "NULLS LAST"@)
        },
        call_requires(order_nulls_first, (modifier,)),
{
    reveal_strlit("NULLS FIRST");
    reveal_strlit("NULLS LAST");
    lemma_spells(modifier@, "NULLS FIRST"@);
    lemma_spells(modifier@, "NULLS LAST"@);
}

/// Two directions, or two places for the nulls, that differ in nothing but the case of their ASCII
/// letters are read alike.
pub proof fn law_case_does_not_matter(
    s: &str,
    t: &str,
    x: Result<bool, ArraySortError>,
    y: Result<bool, ArraySortError>,
)
    requires
        s.is_ascii(),
        t.is_ascii(),
        s@.len() == t@.len(),
        forall|i: int|
            0 <= i < s@.len() ==> is_letter_of(#[trigger] s@[i], t@[i]) || is_letter_of(
                t@[i],
                s@[i],
            ),
    ensures
        call_ensures(order_desc, (s,), x) && call_ensures(order_desc, (t,), y) ==> x == y,
        call_ensures(order_nulls_first, (s,), x) && call_ensures(order_nulls_first, (t,), y) ==> x
            == y,
{
    assert(text::ascii_uppercase(s@) =~= text::ascii_uppercase(t@)) by {
        assert forall|i: int| 0 <= i < s@.len() implies #[trigger] text::ascii_upper(s@[i])
            == text::ascii_upper(t@[i]) by {
            assert(is_letter_of(s@[i], t@[i]) || is_letter_of(t@[i], s@[i]));
        }
    }
}

/// Texts that are in uppercase already are read as they are.
pub proof fn law_uppercase_texts(upper: &String, r: Result<bool, ArraySortError>)
    ensures
        call_ensures(read_direction, (upper,), r) ==> r == if upper@ == "DESC"@ {
            Ok::<bool, ArraySortError>(true)
        } else if upper@ == "ASC"@ {
            Ok(false)
        } else {
            Err(ArraySortError::Direction)
        },
        call_ensures(read_null_placement, (upper,), r) ==> r == if upper@ == "NULLS FIRST"@ {
            Ok::<bool, ArraySortError>(true)
        } else if upper@ == "NULLS LAST"@ {
            Ok(false)
        } else {
            Err(ArraySortError::NullPlacement)
        },
        call_requires(read_direction, (upper,)),
        call_requires(read_null_placement, (upper,)),
{
}

/// A string array among the modifiers that are read has a slot.
pub open spec fn has_slots(args: Seq<AnyArray>) -> bool {
    &&& args.len() == 2 || args.len() == 3 ==> match arrays::text_slots(args[1]) {
        Some(texts) => texts.len() > 0,
        None => true,
    }
    &&& args.len() == 3 && arrays::text_slots(args[1]) is Some ==> match arrays::text_slots(
        args[2],
    ) {
        Some(texts) => texts.len() > 0,
        None => true,
    }
}

/// The order that arguments ask for is read off the first slots of the modifiers alone. With one
/// argument there is none; with two nulls come first; with three they come where the third says.
/// Every other case is an error.
pub proof fn law_requested_order(
    args: &[AnyArray],
    r: Result<Option<SortOptions>, ArraySortError>,
)
    requires
        call_ensures(sort_options, (args,), r),
    ensures
        r is Ok == has_good_modifiers(args@),
        r is Ok && args@.len() == 1 ==> r->Ok_0 is None,
        r is Ok && args@.len() >= 2 ==> r->Ok_0 == Some(
            SortOptions {
                descending: asks_descending(args@),
                nulls_first: !asks_nulls_last(args@),
            },
        ),
        (r matches Err(e) && e is ArgumentCount) == (args@.len() == 0 || args@.len() > 3),
        (r matches Err(e) && e is NotAStringArray) == (1 <= args@.len() <= 3 && !has_strings(
            args@,
        )),
        (r matches Err(e) && e is Direction) == (has_strings(args@) && args@.len() >= 2
            && first_text(args@[1]) != "DESC"@ && first_text(args@[1]) != "ASC"@),
        (r matches Err(e) && e is NullPlacement) == (has_strings(args@) && args@.len() == 3 && (
        first_text(args@[1]) == "DESC"@ || first_text(args@[1]) == "ASC"@) && first_text(args@[2])
            != "NULLS FIRST"@ && first_text(args@[2]) != "NULLS LAST"@),
        r matches Err(e) ==> e is ArgumentCount || e is NotAStringArray || e is Direction
            || e is NullPlacement,
{
    reveal_strlit("DESC");
    reveal_strlit("ASC");
    reveal_strlit("NULLS FIRST");
    reveal_strlit("NULLS LAST");
    assert("NULLS FIRST"@.len() != "NULLS LAST"@.len());
}

/// ASCII modifiers may be written in any mixture of cases.
pub proof fn law_spelled_modifiers(
    args: &[AnyArray],
    r: Result<Option<SortOptions>, ArraySortError>,
    direction: Seq<char>,
    place: Seq<char>,
)
    requires
        call_ensures(sort_options, (args,), r),
        args@.len() == 3,
        arrays::text_slots(args@[1]) is Some,
        arrays::text_slots(args@[2]) is Some,
        direction == arrays::text_slots(args@[1])->0[0],
        place == arrays::text_slots(args@[2])->0[0],
        vstd::utf8::is_ascii_chars(direction),
        vstd::utf8::is_ascii_chars(place),
    ensures
        r is Ok == ((spells(direction, "DESC"@) || spells(direction, "ASC"@)) && (spells(
            place,
            "NULLS FIRST"@,
        ) || spells(place, "NULLS LAST"@))),
        r is Ok ==> r->Ok_0 == Some(
            SortOptions {
                descending: spells(direction, "DESC"@),
                nulls_first: spells(place, "NULLS FIRST"@),
            },
        ),
{
    reveal_strlit("DESC");
    reveal_strlit("ASC");
    reveal_strlit("NULLS FIRST");
    reveal_strlit("NULLS LAST");
    lemma_spells(direction, "DESC"@);
    lemma_spells(direction, "ASC"@);
    lemma_spells(place, "NULLS FIRST"@);
    lemma_spells(place, "NULLS LAST"@);
}

/// With two arguments too, an ASCII direction may be written in any mixture of cases.
pub proof fn law_spelled_direction(
    args: &[AnyArray],
    r: Result<Option<SortOptions>, ArraySortError>,
    direction: Seq<char>,
)
    requires
        call_ensures(sort_options, (args,), r),
        args@.len() == 2,
        arrays::text_slots(args@[1]) is Some,
        direction == arrays::text_slots(args@[1])->0[0],
        vstd::utf8::is_ascii_chars(direction),
    ensures
        r is Ok == (spells(direction, "DESC"@) || spells(direction, "ASC"@)),
        r is Ok ==> r->Ok_0 == Some(
            SortOptions { descending: spells(direction, "DESC"@), nulls_first: true },
        ),
{
    reveal_strlit("DESC");
    reveal_strlit("ASC");
    lemma_spells(direction, "DESC"@);
    lemma_spells(direction, "ASC"@);
}

/// What `array_sort` makes of ASCII modifiers depends on nothing but their letters, in any mixture
/// of cases.
pub proof fn law_array_sort_reads_any_case(
    args: &[AnyArray],
    r: Result<AnyArray, ArraySortError>,
)
    requires
        gives(args, r),
        has_strings(args@),
        args@.len() >= 2 ==> vstd::utf8::is_ascii_chars(arrays::text_slots(args@[1])->0[0]),
        args@.len() == 3 ==> vstd::utf8::is_ascii_chars(arrays::text_slots(args@[2])->0[0]),
    ensures
        args@.len() >= 2 && has_good_modifiers(args@) ==> asks_descending(args@) == spells(
            arrays::text_slots(args@[1])->0[0],
            "DESC"@,
        ),
        args@.len() == 3 && has_good_modifiers(args@) ==> asks_nulls_last(args@) == spells(
            arrays::text_slots(args@[2])->0[0],
            "NULLS LAST"@,
        ),
        has_good_modifiers(args@) == {
            &&& args@.len() >= 2 ==> spells(arrays::text_slots(args@[1])->0[0], "DESC"@) || spells(
                arrays::text_slots(args@[1])->0[0],
                "ASC"@,
            )
            &&& args@.len() == 3 ==> spells(arrays::text_slots(args@[2])->0[0], "NULLS FIRST"@)
                || spells(arrays::text_slots(args@[2])->0[0], "NULLS LAST"@)
        },
{
    reveal_strlit("DESC");
    reveal_strlit("ASC");
    reveal_strlit("NULLS FIRST");
    reveal_strlit("NULLS LAST");
    assert("NULLS FIRST"@.len() != "NULLS LAST"@.len());
    let second = arrays::text_slots(args@[1])->0[0];
    let third = arrays::text_slots(args@[2])->0[0];
    lemma_spells(second, "DESC"@);
    lemma_spells(second, "ASC"@);
    lemma_spells(third, "NULLS FIRST"@);
    lemma_spells(third, "NULLS LAST"@);
    assert(crate::arguments::has_ascii_modifiers(args@));
}

/// The order can be read off all arguments whose modifiers have the slots that are read.
pub proof fn law_modifiers_can_be_read(args: &[AnyArray])
    requires
        has_slots(args@),
    ensures
        call_requires(sort_options, (args,)),
{
}

} // verus!
