//! Verses of the cumulative song, one per day index 0 through 11.

use vstd::prelude::*;
use vstd::string::StringExecFns;

verus! {

/// The ordinal name of a day index, as the song spells it (two of the
/// spellings are the song's own).
pub open spec fn spec_day_name(day: int) -> Seq<char> {
    if day == 0 {
        "first"@
    } else if day == 1 {
        "second"@
    } else if day == 2 {
        "thrid"@
    } else if day == 3 {
        "fourth"@
    } else if day == 4 {
        "fifth"@
    } else if day == 5 {
        "sixth"@
    } else if day == 6 {
        "seventh"@
    } else if day == 7 {
        "eigth"@
    } else if day == 8 {
        "ninth"@
    } else if day == 9 {
        "tenth"@
    } else if day == 10 {
        "eleventh"@
    } else {
        "twelfth"@
    }
}

/// The gift announced on a day index.
pub open spec fn spec_gift(day: int) -> Seq<char> {
    if day == 0 {
        "a partridge in a pear tree"@
    } else if day == 1 {
        "two turtle doves"@
    } else if day == 2 {
        "three French hens"@
    } else if day == 3 {
        "four calling birds"@
    } else if day == 4 {
        "five golden rings"@
    } else if day == 5 {
        "six geese a-layin'"@
    } else if day == 6 {
        "seven swans a-swimmin'"@
    } else if day == 7 {
        "eight maids a-milkin'"@
    } else if day == 8 {
        "nine lords a-leapin'"@
    } else if day == 9 {
        "ten ladies dancin'"@
    } else if day == 10 {
        "eleven pipers pipin'"@
    } else {
        "twelve drummers drummin'"@
    }
}

/// The ordinal name of `day`, for day indices 0 through 11.
pub fn name_for_day(day: i8) -> (r: String)
    requires
        0 <= day <= 11,
    ensures
        r@ == spec_day_name(day as int),
{
    if day == 0 {
        "first".to_owned()
    } else if day == 1 {
        "second".to_owned()
    } else if day == 2 {
        "thrid".to_owned()
    } else if day == 3 {
        "fourth".to_owned()
    } else if day == 4 {
        "fifth".to_owned()
    } else if day == 5 {
        "sixth".to_owned()
    } else if day == 6 {
        "seventh".to_owned()
    } else if day == 7 {
        "eigth".to_owned()
    } else if day == 8 {
        "ninth".to_owned()
    } else if day == 9 {
        "tenth".to_owned()
    } else if day == 10 {
        "eleventh".to_owned()
    } else {
        "twelfth".to_owned()
    }
}

/// The gift announced on `day`, for day indices 0 through 11.
pub fn gift_for_day(day: i8) -> (r: String)
    requires
        0 <= day <= 11,
    ensures
        r@ == spec_gift(day as int),
{
    if day == 0 {
        "a partridge in a pear tree".to_owned()
    } else if day == 1 {
        "two turtle doves".to_owned()
    } else if day == 2 {
        "three French hens".to_owned()
    } else if day == 3 {
        "four calling birds".to_owned()
    } else if day == 4 {
        "five golden rings".to_owned()
    } else if day == 5 {
        "six geese a-layin'".to_owned()
    } else if day == 6 {
        "seven swans a-swimmin'".to_owned()
    } else if day == 7 {
        "eight maids a-milkin'".to_owned()
    } else if day == 8 {
        "nine lords a-leapin'".to_owned()
    } else if day == 9 {
        "ten ladies dancin'".to_owned()
    } else if day == 10 {
        "eleven pipers pipin'".to_owned()
    } else {
        "twelve drummers drummin'".to_owned()
    }
}

/// The text put before the gift of index `j` in the verse for `day`:
/// the first line gets a bare line break, the last line adds "and ",
/// and every other line follows a comma. The first rule wins on day 0,
/// where the only gift is both the first and the last.
pub open spec fn spec_separator(day: int, j: int) -> Seq<char> {
    if j == day {
        "\n"@
    } else if j == 0 {
        "\nand "@
    } else {
        ",\n"@
    }
}

/// The gift lines of the verse for `day`, from the gift of index `day`
/// down to the gift of index `j`, each with its separator in front.
pub open spec fn spec_gift_lines(day: int, j: int) -> Seq<char>
    decreases day - j,
{
    if j < day {
        spec_gift_lines(day, j + 1) + spec_separator(day, j) + spec_gift(j)
    } else {
        spec_separator(day, j) + spec_gift(j)
    }
}

/// The whole verse for `day`: the announcement with the day's ordinal
/// name, then the accumulated gift lines in reverse order of announcement,
/// then a closing line break.
pub open spec fn spec_verse(day: int) -> Seq<char> {
    "On the "@ + spec_day_name(day) + " of Christmas, my true love gave to me "@
        + spec_gift_lines(day, 0) + "\n"@
}

/// Builds the verse for `day`, for day indices 0 through 11: the gifts
/// of indices `day` down to 0, joined by the three separator rules, with
/// the day's announcement in front and a line break at the end.
pub fn verse_for_day(day: i8) -> (r: String)
    requires
        0 <= day <= 11,
    ensures
        r@ == spec_verse(day as int),
{
    let mut gifts = String::new();
    let mut j: i8 = day;
    while j >= 0
        invariant
            -1 <= j <= day <= 11,
            j == day ==> gifts@ == Seq::<char>::empty(),
            j < day ==> gifts@ == spec_gift_lines(day as int, j as int + 1),
        decreases j + 1,
    {
        let sep: &str = if j == day {
            "\n"
        } else if j == 0 {
            "\nand "
        } else {
            ",\n"
        };
        let ghost before = gifts@;
        gifts.append(sep);
        let g = gift_for_day(j);
        gifts.append(g.as_str());
        proof {
            assert(gifts@ == before + spec_separator(day as int, j as int) + spec_gift(j as int));
            if j == day {
                assert(gifts@ =~= spec_gift_lines(day as int, j as int));
            }
        }
        j = j - 1;
    }
    let mut verse = "On the ".to_owned();
    let name = name_for_day(day);
    verse.append(name.as_str());
    verse.append(" of Christmas, my true love gave to me ");
    verse.append(gifts.as_str());
    verse.append("\n");
    proof {
        assert(verse@ =~= spec_verse(day as int));
    }
    verse
}

} // verus!
