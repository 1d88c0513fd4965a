use umasim::error::SimError;
use umasim::game::card::{add_clamped, clamp_to_i32, CardTrainingEffect};
use umasim::game::training::{stat_gain, training_value, vital_gain};
use umasim::game::uma::{Uma, UmaFlags};
use umasim::gamedata::{ActionValue, GameConstants};

fn plain() -> CardTrainingEffect {
    CardTrainingEffect::default()
}

fn trainee(motivation: i32, growth: [i32; 6]) -> Uma {
    Uma {
        uma_id: 1,
        vital: 100,
        motivation,
        five_status: [100, 100, 100, 100, 100],
        skill_pt: 120,
        five_status_bonus: growth,
        flags: UmaFlags { ill: false },
        race_turns: [false; 78],
    }
}

fn constants() -> GameConstants {
    let mut table = Vec::new();
    for lane in 0..5 {
        let mut rows = Vec::new();
        for level in 0..6 {
            let mut row = [0i32; 7];
            row[lane] = 8 + level;
            row[(lane + 2) % 5] = 4;
            row[5] = 2;
            row[6] = if lane == 4 { 5 } else { -20 - level };
            rows.push(row);
        }
        table.push(rows);
    }
    GameConstants {
        training_basic_value: table,
        train_names: vec![
            "speed".to_string(),
            "stamina".to_string(),
            "power".to_string(),
            "guts".to_string(),
            "wisdom".to_string(),
        ],
        motivation_names: vec![
            "awful".to_string(),
            "bad".to_string(),
            "normal".to_string(),
            "good".to_string(),
            "great".to_string(),
        ],
    }
}

#[test]
fn gain_is_rounded_down() {
    let mut effect = plain();
    effect.xunlian = 29;
    assert_eq!(stat_gain(10, 0, &effect, 3, 0, 0), 12);
}

#[test]
fn vitality_loss_is_cut_by_the_spared_share() {
    let mut effect = plain();
    effect.vital_cost_drop = 25;
    assert_eq!(vital_gain(-20, 0, &effect), -15);
}

#[test]
fn vitality_loss_drops_the_fraction() {
    let mut effect = plain();
    effect.vital_cost_drop = 30;
    // -21 * 0.7 = -14.7
    assert_eq!(vital_gain(-21, 0, &effect), -14);
    effect.vital_cost_drop = 100;
    assert_eq!(vital_gain(-21, 0, &effect), 0);
    effect.vital_cost_drop = 0;
    assert_eq!(vital_gain(-21, 0, &effect), -21);
}

#[test]
fn vitality_gain_is_not_scaled() {
    let mut effect = plain();
    effect.vital_cost_drop = 50;
    assert_eq!(vital_gain(5, 0, &effect), 5);
    assert_eq!(vital_gain(0, 0, &effect), 0);
}

#[test]
fn wisdom_lane_gives_vitality_back() {
    let mut effect = plain();
    effect.wiz_vital_bonus = 4;
    assert_eq!(vital_gain(5, 4, &effect), 9);
    assert_eq!(vital_gain(5, 3, &effect), 5);
    // with the bonus the net is still a loss, and the loss is cut
    effect.vital_cost_drop = 50;
    assert_eq!(vital_gain(-10, 4, &effect), -3);
    assert_eq!(vital_gain(-10, 0, &effect), -5);
}

#[test]
fn base_values_come_back_without_bonuses() {
    let cons = constants();
    let uma = trainee(3, [0; 6]);
    for lane in 0..5usize {
        let value = training_value(&cons, lane, 0, 0, &plain(), &uma).unwrap();
        let base = cons.training_basic_value[lane][0];
        assert_eq!(value.status_pt, [base[0], base[1], base[2], base[3], base[4], base[5]]);
        assert_eq!(value.vital, base[6]);
    }
}

#[test]
fn one_partner_adds_nothing_and_each_further_one_five_percent() {
    let effect = plain();
    assert_eq!(stat_gain(100, 0, &effect, 3, 0, 0), 100);
    assert_eq!(stat_gain(100, 0, &effect, 3, 1, 0), 100);
    assert_eq!(stat_gain(100, 0, &effect, 3, 2, 0), 105);
    assert_eq!(stat_gain(100, 0, &effect, 3, 5, 0), 120);
}

#[test]
fn all_factors_multiply() {
    let mut effect = plain();
    effect.youqing = 25;
    effect.ganjing = 50;
    effect.xunlian = 10;
    // raw 20 + 3 = 23; friendship 1.25; motivation 5: 1 + 0.2 * 1.5 = 1.3;
    // training 1.1; three partners 1.1; growth 1.2
    // 23 * 1.25 * 1.3 * 1.1 * 1.1 * 1.2 = 54.26...
    assert_eq!(stat_gain(20, 3, &effect, 5, 3, 20), 54);
}

#[test]
fn low_motivation_lowers_the_gain() {
    let mut effect = plain();
    // motivation 1: 1 - 0.2 = 0.8
    assert_eq!(stat_gain(10, 0, &effect, 1, 0, 0), 8);
    // a motivation bonus widens the swing: 1 - 0.2 * 1.5 = 0.7
    effect.ganjing = 50;
    assert_eq!(stat_gain(10, 0, &effect, 1, 0, 0), 7);
    assert_eq!(stat_gain(10, 0, &effect, 5, 0, 0), 13);
}

#[test]
fn slot_without_base_value_gains_nothing() {
    let mut effect = plain();
    effect.bonus = [7, 7, 7, 7, 7, 7];
    assert_eq!(stat_gain(0, 7, &effect, 5, 3, 50), 0);
    assert_eq!(stat_gain(-3, 7, &effect, 5, 3, 50), 0);
}

#[test]
fn negative_product_is_rounded_down_too() {
    let mut effect = plain();
    effect.xunlian = 29;
    // raw 10 - 20 = -10; -10 * 1.29 = -12.9
    assert_eq!(stat_gain(10, -20, &effect, 3, 0, 0), -13);
    // a factor below zero turns the sign: 10 * (1 - 2.29) = -12.9
    effect.xunlian = -229;
    assert_eq!(stat_gain(10, 0, &effect, 3, 0, 0), -13);
}

#[test]
fn zero_factor_gives_zero() {
    let mut effect = plain();
    effect.youqing = -100;
    assert_eq!(stat_gain(10, 5, &effect, 5, 2, 10), 0);
    assert_eq!(stat_gain(10, -10, &plain(), 5, 2, 10), 0);
}

#[test]
fn gain_stops_at_the_border_of_32_bits() {
    let mut effect = plain();
    effect.youqing = i32::MAX;
    effect.xunlian = i32::MAX;
    effect.ganjing = i32::MAX;
    assert_eq!(stat_gain(i32::MAX, i32::MAX, &effect, i32::MAX, usize::MAX, i32::MAX), i32::MAX);
    effect.youqing = i32::MIN;
    assert_eq!(stat_gain(i32::MAX, i32::MAX, &effect, i32::MAX, usize::MAX, i32::MAX), i32::MIN);
    // just inside and just outside
    let plain = plain();
    assert_eq!(stat_gain(i32::MAX, 0, &plain, 3, 0, 0), i32::MAX);
    assert_eq!(stat_gain(i32::MAX, 1, &plain, 3, 0, 0), i32::MAX);
    assert_eq!(stat_gain(1, i32::MIN, &plain, 3, 0, 0), i32::MIN + 1);
}

#[test]
fn lane_beyond_the_fifth_is_refused() {
    let cons = constants();
    let uma = trainee(3, [0; 6]);
    assert_eq!(training_value(&cons, 5, 1, 0, &plain(), &uma), Err(SimError::InvalidLane));
    assert_eq!(training_value(&cons, usize::MAX, 1, 0, &plain(), &uma), Err(SimError::InvalidLane));
}

#[test]
fn level_without_base_values_is_refused() {
    let cons = constants();
    let uma = trainee(3, [0; 6]);
    assert_eq!(training_value(&cons, 0, 6, 0, &plain(), &uma), Err(SimError::InvalidLevel));
    let empty = GameConstants {
        training_basic_value: vec![],
        train_names: vec![],
        motivation_names: vec![],
    };
    assert_eq!(training_value(&empty, 0, 0, 0, &plain(), &uma), Err(SimError::InvalidLevel));
}

#[test]
fn training_value_uses_every_slot() {
    let cons = constants();
    let uma = trainee(4, [10, 0, 20, 0, 0, 0]);
    let mut effect = plain();
    effect.bonus = [1, 0, 2, 0, 0, 1];
    effect.xunlian = 5;
    effect.vital_cost_drop = 10;
    // lane 0 at level 2: base [10, 0, 4, 0, 0, 2, -22], two partners
    let value = training_value(&cons, 0, 2, 2, &effect, &uma).unwrap();
    // slot 0: 11 * 1.1 (motivation 4) * 1.05 * 1.05 * 1.1 = 14.67...
    // slot 2: 6 * 1.1 * 1.05 * 1.05 * 1.2 = 8.73...
    // slot 5: 3 * 1.1 * 1.05 * 1.05 = 3.63...
    assert_eq!(value.status_pt, [14, 0, 8, 0, 0, 3]);
    // -22 * 0.9 = -19.8
    assert_eq!(value.vital, -19);
}

#[test]
fn same_inputs_give_the_same_value() {
    let cons = constants();
    let uma = trainee(5, [3, 1, 4, 1, 5, 9]);
    let mut effect = plain();
    effect.youqing = 17;
    effect.bonus = [2, 7, 1, 8, 2, 8];
    let first = training_value(&cons, 3, 4, 3, &effect, &uma);
    for _ in 0..20 {
        assert_eq!(training_value(&cons, 3, 4, 3, &effect, &uma), first);
    }
}

#[test]
fn effects_add_field_by_field() {
    let mut a = plain();
    a.youqing = 10;
    a.bonus = [1, 2, 3, 4, 5, 6];
    a.deyilv = 30;
    let mut b = plain();
    b.youqing = 5;
    b.ganjing = 7;
    b.bonus = [10, 20, 30, 40, 50, 60];
    b.wiz_vital_bonus = 3;
    let sum = a.add(&b);
    assert_eq!(sum.youqing, 15);
    assert_eq!(sum.ganjing, 7);
    assert_eq!(sum.xunlian, 0);
    assert_eq!(sum.bonus, [11, 22, 33, 44, 55, 66]);
    assert_eq!(sum.wiz_vital_bonus, 3);
    assert_eq!(sum.deyilv, 30);
    assert_eq!(plain().add(&plain()), plain());
}

#[test]
fn effect_sums_stop_at_the_border() {
    let mut a = plain();
    a.xunlian = i32::MAX;
    a.bonus[2] = i32::MIN;
    let mut b = plain();
    b.xunlian = 1;
    b.bonus[2] = -1;
    let sum = a.add(&b);
    assert_eq!(sum.xunlian, i32::MAX);
    assert_eq!(sum.bonus[2], i32::MIN);
}

#[test]
fn clamping_keeps_what_fits() {
    assert_eq!(clamp_to_i32(0), 0);
    assert_eq!(clamp_to_i32(i32::MAX as i128), i32::MAX);
    assert_eq!(clamp_to_i32(i32::MAX as i128 + 1), i32::MAX);
    assert_eq!(clamp_to_i32(i32::MIN as i128 - 1), i32::MIN);
    assert_eq!(add_clamped(i32::MAX, 1), i32::MAX);
    assert_eq!(add_clamped(-5, 3), -2);
}

#[test]
fn action_value_starts_empty() {
    let value = ActionValue::default();
    assert_eq!(value.status_pt, [0; 6]);
    assert_eq!(value.vital, 0);
}

#[test]
fn trainee_takes_a_value() {
    let mut uma = trainee(3, [0; 6]);
    uma.apply_action(&ActionValue { status_pt: [1, 2, 3, 4, 5, 6], vital: -30 });
    assert_eq!(uma.five_status, [101, 102, 103, 104, 105]);
    assert_eq!(uma.skill_pt, 126);
    assert_eq!(uma.vital, 70);
    assert_eq!(uma.motivation, 3);
    assert_eq!(uma.total_pt(), 101 + 102 + 103 + 104 + 105 + 126);
    uma.apply_action(&ActionValue { status_pt: [i32::MAX, 0, 0, 0, 0, i32::MIN], vital: i32::MIN });
    assert_eq!(uma.five_status[0], i32::MAX);
    assert_eq!(uma.skill_pt, 126 + i32::MIN);
    assert_eq!(uma.vital, 70 + i32::MIN);
}

#[test]
fn race_turns_are_read_from_the_schedule() {
    let mut uma = trainee(3, [0; 6]);
    uma.race_turns[11] = true;
    uma.race_turns[77] = true;
    assert_eq!(uma.is_race_turn(11), Ok(true));
    assert_eq!(uma.is_race_turn(12), Ok(false));
    assert_eq!(uma.is_race_turn(77), Ok(true));
    assert_eq!(uma.is_race_turn(78), Err(SimError::InvalidTurn));
    assert_eq!(uma.is_race_turn(u32::MAX), Err(SimError::InvalidTurn));
}
