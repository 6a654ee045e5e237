use english_numerals::number_to_words;
use english_numerals::{convert_triplet_to_phrase, split_digits, split_number_into_triplets};

#[test]
fn it_works() {
    let test_data = vec![
        (0, "zero"),
        (1, "one"),
        (9, "nine"),
        (10, "ten"),
        (11, "eleven"),
        (19, "nineteen"),
        (20, "twenty"),
        (21, "twenty-one"),
        (80, "eighty"),
        (90, "ninety"),
        (99, "ninety-nine"),
        (100, "one hundred"),
        (101, "one hundred one"),
        (111, "one hundred eleven"),
        (120, "one hundred twenty"),
        (121, "one hundred twenty-one"),
        (900, "nine hundred"),
        (909, "nine hundred nine"),
        (919, "nine hundred nineteen"),
        (990, "nine hundred ninety"),
        (999, "nine hundred ninety-nine"),
        (1_000, "one thousand"),
        (2_000, "two thousand"),
        (4_000, "four thousand"),
        (5_000, "five thousand"),
        (11_000, "eleven thousand"),
        (21_000, "twenty-one thousand"),
        (999_000, "nine hundred ninety-nine thousand"),
        (999_999, "nine hundred ninety-nine thousand nine hundred ninety-nine"),
        (1_000_000, "one million"),
        (2_000_000, "two million"),
        (4_000_000, "four million"),
        (5_000_000, "five million"),
        (100_100_100, "one hundred million one hundred thousand one hundred"),
        (500_500_500, "five hundred million five hundred thousand five hundred"),
        (606_606_606, "six hundred six million six hundred six thousand six hundred six"),
        (999_000_000, "nine hundred ninety-nine million"),
        (999_000_999, "nine hundred ninety-nine million nine hundred ninety-nine"),
        (999_999_000, "nine hundred ninety-nine million nine hundred ninety-nine thousand"),
        (999_999_999, "nine hundred ninety-nine million nine hundred ninety-nine thousand nine hundred ninety-nine"),
        (1_174_315_110, "one billion one hundred seventy-four million three hundred fifteen thousand one hundred ten"),
        (1_174_315_119, "one billion one hundred seventy-four million three hundred fifteen thousand one hundred nineteen"),
        (15_174_315_119, "fifteen billion one hundred seventy-four million three hundred fifteen thousand one hundred nineteen"),
        (35_174_315_119, "thirty-five billion one hundred seventy-four million three hundred fifteen thousand one hundred nineteen"),
        (935_174_315_119, "nine hundred thirty-five billion one hundred seventy-four million three hundred fifteen thousand one hundred nineteen"),
        (2_935_174_315_119, "two trillion nine hundred thirty-five billion one hundred seventy-four million three hundred fifteen thousand one hundred nineteen"),
    ];
    for (number, translation) in test_data {
        assert_eq!(number_to_words(number), translation);
    }
}

#[test]
fn zero_law() {
    assert_eq!(number_to_words(0), "zero");
}

#[test]
fn middle_zero_group_elided() {
    assert_eq!(number_to_words(1_000_005), "one million five");
}

#[test]
fn no_zero_beside_scale_words() {
    for number in [1_000, 1_000_000, 20_000_000, 999_000_999, 1_000_000_000_000] {
        let phrase = number_to_words(number);
        assert!(!phrase.contains("zero"));
        assert!(!phrase.starts_with(' '));
        assert!(!phrase.ends_with(' '));
        assert!(!phrase.contains("  "));
    }
}

#[test]
fn new_leading_triplet_adds_one_scale_word() {
    assert_eq!(number_to_words(315_119), "three hundred fifteen thousand one hundred nineteen");
    assert_eq!(
        number_to_words(174_315_119),
        "one hundred seventy-four million three hundred fifteen thousand one hundred nineteen"
    );
    let small = number_to_words(315_119);
    let grown = number_to_words(174_315_119);
    assert!(grown.ends_with(&small));
    assert_eq!(
        grown.matches("million").count(),
        small.matches("million").count() + 1
    );
}

#[test]
fn hyphen_only_between_tens_and_ones() {
    assert_eq!(convert_triplet_to_phrase(21).matches('-').count(), 1);
    assert_eq!(convert_triplet_to_phrase(999).matches('-').count(), 1);
    assert_eq!(convert_triplet_to_phrase(17).matches('-').count(), 0);
    assert_eq!(convert_triplet_to_phrase(110).matches('-').count(), 0);
    assert_eq!(convert_triplet_to_phrase(20).matches('-').count(), 0);
}

#[test]
fn idempotent_formatting() {
    for number in [0, 21, 999_999, 1_000_005, 2_935_174_315_119] {
        assert_eq!(number_to_words(number), number_to_words(number));
    }
}

#[test]
fn largest_input() {
    assert_eq!(
        number_to_words(i64::MAX),
        "nine quintillion two hundred twenty-three quadrillion three hundred seventy-two \
         trillion thirty-six billion eight hundred fifty-four million seven hundred \
         seventy-five thousand eight hundred seven"
    );
}

#[test]
fn triplet_phrases() {
    assert_eq!(convert_triplet_to_phrase(0), "");
    assert_eq!(convert_triplet_to_phrase(5), "five");
    assert_eq!(convert_triplet_to_phrase(13), "thirteen");
    assert_eq!(convert_triplet_to_phrase(40), "forty");
    assert_eq!(convert_triplet_to_phrase(100), "one hundred");
    assert_eq!(convert_triplet_to_phrase(101), "one hundred one");
    assert_eq!(convert_triplet_to_phrase(999), "nine hundred ninety-nine");
}

#[test]
fn digit_split() {
    assert_eq!(split_digits(987), (9, 8, 7));
    assert_eq!(split_digits(7), (0, 0, 7));
    assert_eq!(split_digits(40), (0, 4, 0));
    assert_eq!(split_digits(500), (5, 0, 0));
}

#[test]
fn triplet_split() {
    assert_eq!(split_number_into_triplets(0), Vec::<u64>::new());
    assert_eq!(split_number_into_triplets(999), vec![999]);
    assert_eq!(split_number_into_triplets(1_000_005), vec![5, 0, 1]);
    assert_eq!(split_number_into_triplets(2_935_174_315_119), vec![119, 315, 174, 935, 2]);
}
