use exercises::twelve_days::{gift_for_day, name_for_day, verse_for_day};

#[test]
fn first_day_verse() {
    assert_eq!(
        verse_for_day(0),
        "On the first of Christmas, my true love gave to me \na partridge in a pear tree\n"
    );
}

#[test]
fn second_day_verse() {
    assert_eq!(
        verse_for_day(1),
        "On the second of Christmas, my true love gave to me \
         \ntwo turtle doves\nand a partridge in a pear tree\n"
    );
}

#[test]
fn twelfth_day_lookups() {
    assert_eq!(name_for_day(11), "twelfth");
    assert_eq!(gift_for_day(11), "twelve drummers drummin'");
}

#[test]
fn misspelled_ordinals_are_kept() {
    assert_eq!(name_for_day(2), "thrid");
    assert_eq!(name_for_day(7), "eigth");
}

#[test]
fn third_day_verse_joins_middle_gifts_with_commas() {
    assert_eq!(
        verse_for_day(2),
        "On the thrid of Christmas, my true love gave to me \
         \nthree French hens,\ntwo turtle doves\nand a partridge in a pear tree\n"
    );
}

#[test]
fn twelfth_day_verse_lists_every_gift() {
    let expected = String::from("On the twelfth of Christmas, my true love gave to me ")
        + "\ntwelve drummers drummin',"
        + "\neleven pipers pipin',"
        + "\nten ladies dancin',"
        + "\nnine lords a-leapin',"
        + "\neight maids a-milkin',"
        + "\nseven swans a-swimmin',"
        + "\nsix geese a-layin',"
        + "\nfive golden rings,"
        + "\nfour calling birds,"
        + "\nthree French hens,"
        + "\ntwo turtle doves"
        + "\nand a partridge in a pear tree\n";
    assert_eq!(verse_for_day(11), expected);
}
