use rand::{Error, Rng, RngCore};
use seeded_dice_roller::{
    CopyableRollToProcess, PreparedRoll, RollMethod, RollToProcess, SeededDiceRoller,
};

/// Lets `rand` draw what the library cannot hold, floats, from a roller's own
/// stream of words.
struct Words<'a>(&'a mut SeededDiceRoller);

impl<'a> RngCore for Words<'a> {
    fn next_u32(&mut self) -> u32 {
        self.0.gen_u32()
    }

    fn next_u64(&mut self) -> u64 {
        self.0.gen_u64()
    }

    fn fill_bytes(&mut self, dest: &mut [u8]) {
        for chunk in dest.chunks_mut(8) {
            let word = self.0.gen_u64().to_le_bytes();
            chunk.copy_from_slice(&word[..chunk.len()]);
        }
    }

    fn try_fill_bytes(&mut self, dest: &mut [u8]) -> Result<(), Error> {
        self.fill_bytes(dest);
        Ok(())
    }
}

fn letters() -> CopyableRollToProcess<&'static str> {
    CopyableRollToProcess {
        possible_results: SeededDiceRoller::to_copyable_possible_results(vec![
            "a", "b", "c", "d", "e", "f", "g", "h", "i", "j", "k",
        ]),
        roll_method: RollMethod::SimpleRoll,
    }
}

#[test]
fn dice_roller_is_deterministic() {
    let mut rng = SeededDiceRoller::new("seed", "test");
    {
        assert_eq!(rng.roll(1, 6, 0), 2);
        assert_eq!(rng.roll(3, 6, -5), 2);
        assert_eq!(rng.roll(1, 6, 0), 2);
        assert_eq!(rng.roll(1, 20, 0), 6);
        assert_eq!(rng.roll(1, 6, -15), -13);
        assert_eq!(rng.roll(69, 6, 0), 242);
        assert_eq!(rng.roll(2, 123, 0), 81);
        assert_eq!(rng.roll(1, 6, 3343), 3348);
        assert_eq!(rng.gen_bool(), false);
        assert_eq!(rng.gen_u8(), 188);
        assert_eq!(rng.gen_u16(), 45209);
        assert_eq!(rng.gen_u32(), 2067204665);
        assert_eq!(rng.gen_u64(), 11144615613207554777);
        assert_eq!(rng.gen_u128(), 326911416680500363065339602289182768569);
        assert_eq!(rng.gen_usize(), 8269465146262660349);
        assert_eq!(rng.gen_i8(), 83);
        assert_eq!(rng.gen_i16(), 3067);
        assert_eq!(rng.gen_i32(), -1171247657);
        assert_eq!(rng.gen_i64(), 9108059218017983344);
        assert_eq!(rng.gen_i128(), 146530613037906103918089470235257735612);
        assert_eq!(rng.gen_isize(), 2479790373172492566);
        assert_eq!(Words(&mut rng).gen::<f32>(), 0.9228384);
        assert_eq!(Words(&mut rng).gen::<f64>(), 0.8631162799734914);

        assert!("j".eq(rng.get_result(&letters()).unwrap()));

        assert_eq!(rng.gen_range(0, 49), 8);
    }
    rng = SeededDiceRoller::new("other_seed", "test");
    {
        assert_eq!(rng.roll(1, 6, 0), 6);
        assert_eq!(rng.roll(3, 6, -5), 10);
        assert_eq!(rng.roll(1, 6, 0), 3);
        assert_eq!(rng.roll(1, 20, 0), 10);
        assert_eq!(rng.roll(1, 6, -15), -12);
        assert_eq!(rng.roll(69, 6, 0), 240);
        assert_eq!(rng.roll(2, 123, 0), 138);
        assert_eq!(rng.roll(1, 6, 3343), 3344);
        assert_eq!(rng.gen_bool(), true);
        assert_eq!(rng.gen_u8(), 82);
        assert_eq!(rng.gen_u16(), 27159);
        assert_eq!(rng.gen_u32(), 3180098725);
        assert_eq!(rng.gen_u64(), 11552742574431662508);
        assert_eq!(rng.gen_u128(), 196627661076901716217737966822153854526);
        assert_eq!(rng.gen_usize(), 1997277166238086139);
        assert_eq!(rng.gen_i8(), 45);
        assert_eq!(rng.gen_i16(), -22194);
        assert_eq!(rng.gen_i32(), -1765316073);
        assert_eq!(rng.gen_i64(), 7982030035740135755);
        assert_eq!(rng.gen_i128(), 130008835046757806841833196450514227059);
        assert_eq!(rng.gen_isize(), -3501112453948772746);
        assert_eq!(Words(&mut rng).gen::<f32>(), 0.9940159);
        assert_eq!(Words(&mut rng).gen::<f64>(), 0.45617011270821706);

        assert!("k".eq(rng.get_result(&letters()).unwrap()));

        assert_eq!(Words(&mut rng).gen_range(0.002..0.0065), 0.00628507741768172);
    }
    rng = SeededDiceRoller::new("other_seed", "step");
    {
        assert_eq!(rng.roll(1, 6, 0), 1);
        assert_eq!(rng.roll(3, 6, -5), 4);
        assert_eq!(rng.roll(1, 6, 0), 6);
        assert_eq!(rng.roll(1, 20, 0), 15);
        assert_eq!(rng.roll(1, 6, -15), -12);
        assert_eq!(rng.roll(69, 6, 0), 239);
        assert_eq!(rng.roll(2, 123, 0), 91);
        assert_eq!(rng.roll(1, 6, 3343), 3344);
        assert_eq!(rng.gen_bool(), false);
        assert_eq!(rng.gen_u8(), 162);
        assert_eq!(rng.gen_u16(), 34315);
        assert_eq!(rng.gen_u32(), 2687893072);
        assert_eq!(rng.gen_u64(), 10068043339616645489);
        assert_eq!(rng.gen_u128(), 78293060686096732239048405502667573500);
        assert_eq!(rng.gen_usize(), 15847822118157400675);
        assert_eq!(rng.gen_i8(), -83);
        assert_eq!(rng.gen_i16(), 683);
        assert_eq!(rng.gen_i32(), -585801794);
        assert_eq!(rng.gen_i64(), -1818745056280883793);
        assert_eq!(rng.gen_i128(), 162224135727382922470578647495526568637);
        assert_eq!(rng.gen_isize(), -6539258215208328255);
        assert_eq!(Words(&mut rng).gen::<f32>(), 0.6179796);
        assert_eq!(Words(&mut rng).gen::<f64>(), 0.22569667223081946);

        assert!("g".eq(rng.get_result(&letters()).unwrap()));

        assert_eq!(Words(&mut rng).gen_range(0.00002..1.5), 0.4207423783034179);
    }
}

#[test]
fn roll_is_within_bounds() {
    let mut rng = SeededDiceRoller::new("seed", "test");
    for _ in 0..1000 {
        let n: i64 = rng.roll(1, 6, 0);
        assert!(n >= 1 && n <= 6);
    }
    for _ in 0..1000 {
        let n: i64 = rng.roll(3, 6, 0);
        assert!(n >= 3 && n <= 18);
    }
    for _ in 0..1000 {
        let n: i64 = rng.roll(1, 20, 0);
        assert!(n >= 1 && n <= 20);
    }
}

#[test]
fn roll_prepared_gives_same_results_as_roll() {
    let mut rng_one = SeededDiceRoller::new("seed", "test");
    let mut rng_two = SeededDiceRoller::new("seed", "test");
    let mut n_one: i64 = rng_one.roll(1, 6, 0);
    let mut n_two: i64 = rng_two.roll_prepared(&PreparedRoll {
        dice: 1,
        die_type: 6,
        modifier: 0,
    });
    assert_eq!(n_one, n_two);
    n_one = rng_one.roll(3, 6, -4);
    n_two = rng_two.roll_prepared(&PreparedRoll {
        dice: 3,
        die_type: 6,
        modifier: -4,
    });
    assert_eq!(n_one, n_two);
    n_one = rng_one.roll(20, 100, -444);
    n_two = rng_two.roll_prepared(&PreparedRoll {
        dice: 20,
        die_type: 100,
        modifier: -444,
    });
    assert_eq!(n_one, n_two);
}

#[test]
fn get_result_returns_a_random_result() {
    let mut rng = SeededDiceRoller::new("seed", "test");
    for _ in 0..1000 {
        assert!(vec!["a", "b", "c", "d"].contains(
            &rng.get_result(&CopyableRollToProcess {
                possible_results: SeededDiceRoller::to_copyable_possible_results(vec![
                    "a", "b", "c", "d"
                ]),
                roll_method: RollMethod::PreparedRoll(PreparedRoll {
                    dice: 2,
                    die_type: 6,
                    modifier: -3
                }),
            })
            .unwrap()
        ));
    }
    for _ in 0..1000 {
        assert!(vec!["a", "b", "c", "d"].contains(
            &rng.get_result(&CopyableRollToProcess {
                possible_results: SeededDiceRoller::to_copyable_possible_results(vec![
                    "a", "b", "c", "d"
                ]),
                roll_method: RollMethod::GaussianRoll(4),
            })
            .unwrap()
        ));
    }
    for _ in 0..1000 {
        assert!(vec!["a", "b", "c", "d"].contains(
            &rng.get_result(&CopyableRollToProcess {
                possible_results: SeededDiceRoller::to_copyable_possible_results(vec![
                    "a", "b", "c", "d"
                ]),
                roll_method: RollMethod::SimpleRoll,
            })
            .unwrap()
        ));
    }
}

#[test]
fn get_result_doesnt_fail_out_of_bounds() {
    let mut rng = SeededDiceRoller::new("seed", "test");
    assert!("a".eq(rng
        .get_result(&CopyableRollToProcess {
            possible_results: SeededDiceRoller::to_copyable_possible_results(vec!["a", "b"]),
            roll_method: RollMethod::PreparedRoll(PreparedRoll {
                dice: 0,
                die_type: 0,
                modifier: i32::MIN
            }),
        })
        .unwrap()));
    assert!("b".eq(rng
        .get_result(&CopyableRollToProcess {
            possible_results: SeededDiceRoller::to_copyable_possible_results(vec!["a", "b"]),
            roll_method: RollMethod::PreparedRoll(PreparedRoll {
                dice: u16::MAX,
                die_type: u32::MAX,
                modifier: i32::MAX
            }),
        })
        .unwrap()));
}

#[test]
fn get_result_index_returns_a_random_index() {
    let mut rng = SeededDiceRoller::new("seed", "test");
    for _ in 0..1000 {
        assert!(vec![0, 1, 2, 3, 4, 5, 6, 7].contains(
            &rng.get_result_index(&RollToProcess {
                possible_results: SeededDiceRoller::to_possible_results(vec![
                    "a", "b", "c", "d", "e", "f", "g", "h", "i", "j", "k"
                ]),
                roll_method: RollMethod::PreparedRoll(PreparedRoll {
                    dice: 2,
                    die_type: 6,
                    modifier: -3
                }),
            })
            .unwrap()
        ));
    }
    for _ in 0..1000 {
        assert!(vec![0, 1, 2, 3].contains(
            &rng.get_result_index(&RollToProcess {
                possible_results: SeededDiceRoller::to_possible_results(vec![
                    "a", "b", "c", "d"
                ]),
                roll_method: RollMethod::GaussianRoll(3),
            })
            .unwrap()
        ));
    }
    for _ in 0..1000 {
        assert!(vec![0, 1, 2, 3].contains(
            &rng.get_result_index(&RollToProcess {
                possible_results: SeededDiceRoller::to_possible_results(vec![
                    "a", "b", "c", "d"
                ]),
                roll_method: RollMethod::SimpleRoll,
            })
            .unwrap()
        ));
    }
}

#[test]
fn gen_range_i32_within_bounds() {
    let mut rng = SeededDiceRoller::new("seed", "test");
    for _ in 0..1000 {
        let n: i32 = rng.gen_range(1, 6);
        assert!(n >= 1 && n <= 6, "Value was: {}", n);
    }
}

#[test]
fn gen_range_f64_within_bounds() {
    let mut rng = SeededDiceRoller::new("seed", "test");
    for _ in 0..1000 {
        let n: f64 = Words(&mut rng).gen_range(0.0..=10.0);
        assert!(n >= 0.0 && n <= 10.0, "Value was: {}", n);
    }
}

#[test]
fn gen_range_usize_within_bounds() {
    let mut rng = SeededDiceRoller::new("seed", "test");
    for _ in 0..1000 {
        let n: usize = rng.gen_range_usize(10, 100);
        assert!(n >= 10 && n <= 100, "Value was: {}", n);
    }
}

#[test]
#[should_panic]
fn gen_range_invalid_bounds() {
    let mut rng = SeededDiceRoller::new("seed", "test");
    let _: i32 = rng.gen_range(6, 1); // This should panic as the range is invalid
}
