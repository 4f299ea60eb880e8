use yahtzee::Category;

#[test]
fn upper_counts_times_face() {
    assert_eq!(Category::Twos.score(&[2, 2, 2, 5, 6]), 6);
    assert_eq!(Category::Fours.score(&[4, 1, 4, 4, 2]), 12);
    assert_eq!(Category::Ones.score(&[2, 3, 4, 5, 6]), 0);
    assert_eq!(Category::Sixes.score(&[6, 6, 6, 6, 6]), 30);
    assert_eq!(Category::Fives.score(&[5, 1, 2, 3, 4]), 5);
    assert_eq!(Category::Threes.score(&[3, 3, 1, 1, 1]), 6);
}

#[test]
fn three_and_four_of_a_kind() {
    assert_eq!(Category::ThreeOfAKind.score(&[3, 3, 3, 5, 6]), 20);
    assert_eq!(Category::FourOfAKind.score(&[3, 3, 3, 5, 6]), 0);
    assert_eq!(Category::FourOfAKind.score(&[2, 5, 5, 5, 5]), 22);
    assert_eq!(Category::ThreeOfAKind.score(&[1, 2, 3, 4, 5]), 0);
    assert_eq!(Category::ThreeOfAKind.score(&[6, 6, 6, 6, 6]), 30);
}

#[test]
fn full_house() {
    assert_eq!(Category::FullHouse.score(&[2, 2, 3, 3, 3]), 25);
    assert_eq!(Category::FullHouse.score(&[3, 2, 3, 2, 3]), 25);
    assert_eq!(Category::FullHouse.score(&[2, 2, 2, 2, 2]), 0);
    assert_eq!(Category::FullHouse.score(&[2, 2, 3, 3, 4]), 0);
    assert_eq!(Category::FullHouse.score(&[2, 2, 2, 2, 3]), 0);
}

#[test]
fn straights() {
    assert_eq!(Category::SmallStraight.score(&[1, 2, 3, 4, 6]), 30);
    assert_eq!(Category::LargeStraight.score(&[1, 2, 3, 4, 6]), 0);
    assert_eq!(Category::SmallStraight.score(&[2, 3, 4, 5, 6]), 30);
    assert_eq!(Category::LargeStraight.score(&[2, 3, 4, 5, 6]), 40);
    assert_eq!(Category::LargeStraight.score(&[5, 4, 3, 2, 1]), 40);
    assert_eq!(Category::SmallStraight.score(&[6, 3, 5, 4, 4]), 30);
    assert_eq!(Category::SmallStraight.score(&[1, 2, 3, 5, 6]), 0);
    assert_eq!(Category::LargeStraight.score(&[1, 2, 3, 4, 4]), 0);
}

#[test]
fn yahtzee_needs_five_alike() {
    assert_eq!(Category::Yahtzee.score(&[4, 4, 4, 4, 4]), 50);
    assert_eq!(Category::Yahtzee.score(&[4, 4, 4, 4, 5]), 0);
    assert_eq!(Category::Yahtzee.score(&[1, 2, 3, 4, 5]), 0);
}

#[test]
fn chance_is_the_sum() {
    assert_eq!(Category::Chance.score(&[1, 2, 3, 4, 5]), 15);
    assert_eq!(Category::Chance.score(&[5, 4, 3, 2, 1]), 15);
    assert_eq!(Category::Chance.score(&[6, 6, 6, 6, 6]), 30);
}

#[test]
fn category_indices() {
    assert_eq!(Category::Ones.index(), 0);
    assert_eq!(Category::Sixes.index(), 5);
    assert_eq!(Category::ThreeOfAKind.index(), 6);
    assert_eq!(Category::Chance.index(), 12);
}
