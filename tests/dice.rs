use yahtzee::{Dice, Die, GameError};

#[test]
fn new_die_shows_one_unlocked() {
    let d = Die::new();
    assert_eq!(d.val(), 1);
    assert!(!d.is_locked());
}

#[test]
fn die_roll_stays_in_range() {
    let mut d = Die::new();
    for _ in 0..200 {
        d.roll();
        assert!(1 <= d.val() && d.val() <= 6);
    }
}

#[test]
fn locked_die_keeps_its_face() {
    let mut d = Die::new();
    d.lock();
    assert!(d.is_locked());
    for _ in 0..50 {
        d.roll();
        assert_eq!(d.val(), 1);
    }
    d.unlock().lock().unlock();
    assert!(!d.is_locked());
}

#[test]
fn unlocked_die_changes_eventually() {
    let mut d = Die::new();
    let mut changed = false;
    for _ in 0..200 {
        d.roll();
        if d.val() != 1 {
            changed = true;
        }
    }
    assert!(changed);
}

#[test]
fn dice_lock_range() {
    let mut dice = Dice::new();
    assert_eq!(dice.lock(4), Ok(()));
    assert_eq!(dice.lock(5), Err(GameError::OutOfRange));
    assert_eq!(dice.unlock(7), Err(GameError::OutOfRange));
    assert!(dice.get(4).unwrap().is_locked());
    assert!(dice.get(5).is_err());
    assert_eq!(dice.unlock(4), Ok(()));
    assert!(!dice.get(4).unwrap().is_locked());
}

#[test]
fn roll_all_keeps_locked_faces() {
    let mut dice = Dice::new();
    assert_eq!(dice.faces(), [1, 1, 1, 1, 1]);
    dice.lock(2).unwrap();
    let mut others_changed = false;
    for _ in 0..200 {
        dice.roll();
        let f = dice.faces();
        assert_eq!(f[2], 1);
        for (i, v) in f.iter().enumerate() {
            assert!(1 <= *v && *v <= 6);
            if i != 2 && *v != 1 {
                others_changed = true;
            }
        }
    }
    assert!(others_changed);
    dice.unlock(2).unwrap();
    let mut changed = false;
    for _ in 0..200 {
        dice.roll();
        if dice.faces()[2] != 1 {
            changed = true;
        }
    }
    assert!(changed);
}

#[test]
fn iter_and_unlock_all() {
    let mut dice = Dice::new();
    dice.lock(0).unwrap();
    dice.lock(3).unwrap();
    let all = dice.iter();
    assert_eq!(all.len(), 5);
    assert!(all[0].is_locked() && all[3].is_locked() && !all[1].is_locked());
    dice.unlock_all();
    for d in dice.iter() {
        assert!(!d.is_locked());
        assert_eq!(d.val(), 1);
    }
}

#[test]
fn die_roll_to_takes_the_draw_unless_locked() {
    let mut d = Die::new();
    d.roll_to(4);
    assert_eq!(d.val(), 4);
    d.lock();
    d.roll_to(6);
    assert_eq!(d.val(), 4);
    assert!(d.is_locked());
    d.unlock();
    d.roll_to(2);
    assert_eq!(d.val(), 2);
}

#[test]
fn dice_roll_to_sets_unlocked_dice() {
    let mut dice = Dice::new();
    dice.roll_to([3, 4, 5, 6, 2]);
    assert_eq!(dice.faces(), [3, 4, 5, 6, 2]);
    dice.lock(1).unwrap();
    dice.lock(3).unwrap();
    dice.roll_to([1, 1, 1, 1, 1]);
    assert_eq!(dice.faces(), [1, 4, 1, 6, 1]);
    dice.unlock(1).unwrap();
    dice.roll_to([2, 2, 2, 2, 2]);
    assert_eq!(dice.faces(), [2, 2, 2, 6, 2]);
}
