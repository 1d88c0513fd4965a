use rand::rngs::StdRng;
use rand::SeedableRng;
use umasim::error::SimError;
use umasim::game::base::action::BaseAction;
use umasim::game::base::basic::{all_used, titles, BasicAction, BasicGame};
use umasim::game::card::{CardTrainingEffect, SupportCard};
use umasim::game::events::EventLog;
use umasim::game::model::{PersonType, TurnStage};
use umasim::game::person::BasePerson;
use umasim::game::state::{BaseGame, FriendOutState, InheritInfo};
use umasim::game::traits::{strikes, ActionEnum, Game, Person, Trainer};
use umasim::game::uma::{Uma, UmaFlags};
use umasim::gamedata::{ActionValue, EventData, GameConstants, GameData};
use umasim::trainer::{indices, is_suited, RandomTrainer};

const DECK: [u32; 6] = [302424, 302464, 302484, 302564, 302574, 302644];

fn card(card_id: u32, card_type: i32, friendship: i32, deyilv: i32) -> SupportCard {
    let mut effect = CardTrainingEffect::default();
    effect.deyilv = deyilv;
    SupportCard { card_id, card_type, friendship, effect }
}

fn trainee(uma_id: u32) -> Uma {
    Uma {
        uma_id,
        vital: 100,
        motivation: 3,
        five_status: [90, 80, 70, 60, 50],
        skill_pt: 120,
        five_status_bonus: [10, 0, 20, 0, 0, 0],
        flags: UmaFlags { ill: false },
        race_turns: [false; 78],
    }
}

fn data() -> GameData {
    let mut racer = trainee(101901);
    racer.race_turns[11] = true;
    racer.race_turns[77] = true;
    GameData {
        constants: GameConstants {
            training_basic_value: vec![vec![[10, 0, 5, 0, 0, 2, -20]; 6]; 5],
            train_names: vec![],
            motivation_names: vec![],
        },
        umas: vec![trainee(100101), racer, trainee(101901)],
        cards: vec![
            card(302424, 0, 80, 50),
            card(302464, 1, 20, 30),
            card(302484, 2, 85, 0),
            card(302564, 3, 0, 80),
            card(302574, 5, 0, 0),
            card(302644, 6, 0, 0),
            card(302424, 4, 0, 0),
            card(309999, 7, 0, 0),
        ],
    }
}

fn inherit() -> InheritInfo {
    InheritInfo { blue_count: [15, 3, 0, 0, 0], extra_count: [0, 30, 0, 0, 30, 30] }
}

fn game() -> BasicGame {
    BasicGame::newgame(&data(), 101901, &DECK, inherit()).unwrap()
}

fn moves(actions: &[BaseAction]) -> Vec<BasicAction> {
    actions.iter().map(|a| BasicAction(*a)).collect()
}

use umasim::game::base::action::BaseAction::{
    Clinic, FriendOuting, NormalOuting, Race, Sleep, Train,
};

#[test]
fn test_newgame() {
    let data = data();
    let mut game = BasicGame::newgame(
        &data,
        101901,
        &[302424, 302464, 302484, 302564, 302574, 302644],
        InheritInfo { blue_count: [15, 3, 0, 0, 0], extra_count: [0, 30, 0, 0, 30, 30] },
    )
    .unwrap();
    println!("{:?}", game);
    let trainer = RandomTrainer {};
    let mut rng = StdRng::from_os_rng();
    game.run_simulate(&trainer, &mut rng).unwrap();
    assert_eq!(game.turn(), 77);
    assert_eq!(game.base.stage, TurnStage::End);
}

#[test]
fn new_game_starts_at_the_first_stage_of_turn_zero() {
    let game = game();
    assert_eq!(game.turn(), 0);
    assert_eq!(game.max_turn(), 77);
    assert_eq!(game.base.stage, TurnStage::Begin);
    assert_eq!(game.base.distribution, vec![Vec::<i32>::new(); 5]);
    assert_eq!(game.base.inherit, inherit());
    assert_eq!(game.base.absent_rate_drop, 0);
    assert_eq!(game.base.train_level_count, [0; 5]);
    assert_eq!(game.base.friend.out_state, FriendOutState::BeforeUnlock);
    assert_eq!(game.events().count(1), 0);
    // the first trainee and the first card on record with the id are taken
    assert!(game.base.uma.race_turns[11]);
    assert_eq!(game.uma().uma_id, 101901);
    let ids: Vec<u32> = game.deck().iter().map(|c| c.card_id).collect();
    assert_eq!(ids, DECK.to_vec());
    assert_eq!(game.base.deck[0].card_type, 0);
}

#[test]
fn new_game_has_the_deck_and_the_director_as_roster() {
    let game = game();
    assert_eq!(game.persons.len(), 7);
    for (i, person) in game.persons().iter().enumerate() {
        assert_eq!(person.person_index(), i as i32);
    }
    let kinds: Vec<PersonType> = game.persons.iter().map(|p| p.person_type()).collect();
    assert_eq!(
        kinds,
        vec![
            PersonType::Card,
            PersonType::Card,
            PersonType::Card,
            PersonType::Card,
            PersonType::TeamCard,
            PersonType::ScenarioCard,
            PersonType::Yayoi,
        ]
    );
    let lanes: Vec<i32> = game.persons.iter().map(|p| p.train_type()).collect();
    assert_eq!(lanes, vec![0, 1, 2, 3, 5, 6, 5]);
    assert_eq!(game.persons[0].friendship(), 80);
    assert_eq!(game.persons[0].card_id, 302424);
    let friends: Vec<bool> = game.persons.iter().map(|p| p.is_friend()).collect();
    assert_eq!(friends, vec![false, false, false, false, true, true, true]);
    assert_eq!(game.deyilv(0), Ok(50));
    assert_eq!(game.deyilv(3), Ok(80));
    assert_eq!(game.deyilv(6), Ok(0));
}

#[test]
fn new_game_needs_known_ids() {
    let data = data();
    assert_eq!(
        BasicGame::newgame(&data, 1, &DECK, inherit()).err(),
        Some(SimError::UnknownUma)
    );
    let mut ids = DECK;
    ids[5] = 42;
    assert_eq!(
        BasicGame::newgame(&data, 101901, &ids, inherit()).err(),
        Some(SimError::UnknownCard)
    );
    // an unknown trainee is found before an unknown card
    assert_eq!(BasicGame::newgame(&data, 1, &ids, inherit()).err(), Some(SimError::UnknownUma));
    assert_eq!(BaseGame::new(&data, 1, &DECK, inherit()).err(), Some(SimError::UnknownUma));
    assert_eq!(BaseGame::new(&data, 101901, &ids, inherit()).err(), Some(SimError::UnknownCard));
    assert!(data.find_uma(100101).is_some());
    assert!(data.find_uma(7).is_none());
    assert_eq!(data.find_card(302424).map(|c| c.card_type), Some(0));
    assert!(data.find_card(7).is_none());
}

#[test]
fn card_of_unknown_type_makes_no_person() {
    let data = data();
    let mut ids = DECK;
    ids[2] = 309999;
    assert_eq!(
        BasicGame::newgame(&data, 101901, &ids, inherit()).err(),
        Some(SimError::InvalidCard)
    );
    assert_eq!(BasePerson::try_from(&card(1, 7, 0, 0)), Err(SimError::InvalidCard));
    assert_eq!(BasePerson::try_from(&card(1, -1, 0, 0)), Err(SimError::InvalidCard));
    let person = BasePerson::try_from(&card(9, 4, 33, 0)).unwrap();
    assert_eq!(person.person_type, PersonType::Card);
    assert_eq!(person.train_type, 4);
    assert_eq!(person.friendship, 33);
    assert_eq!(person.card_id, 9);
    assert_eq!(BasePerson::try_from(&card(9, 5, 0, 0)).unwrap().person_type, PersonType::TeamCard);
    assert_eq!(
        BasePerson::try_from(&card(9, 6, 0, 0)).unwrap().person_type,
        PersonType::ScenarioCard
    );
    let director = BasePerson::yayoi();
    assert_eq!(director.person_type, PersonType::Yayoi);
    assert!(director.is_friend());
}

#[test]
fn failed_roster_leaves_the_persons_alone() {
    let mut game = game();
    game.base.deck[3].card_type = 9;
    let before = game.persons.clone();
    assert_eq!(game.init_persons(), Err(SimError::InvalidCard));
    assert_eq!(game.persons, before);
    game.base.deck[3].card_type = 3;
    assert_eq!(game.init_persons(), Ok(()));
    assert_eq!(game.persons.len(), 14);
    assert_eq!(game.persons[..7], before[..]);
    for (i, person) in game.persons.iter().enumerate() {
        assert_eq!(person.person_index, i as i32);
    }
    assert_eq!(game.persons[13].person_type, PersonType::Yayoi);
}

#[test]
fn added_person_gets_the_next_index() {
    let mut game = game();
    let mut guest = BasePerson::yayoi();
    guest.person_type = PersonType::Reporter;
    guest.person_index = 99;
    game.add_person(guest);
    assert_eq!(game.persons.len(), 8);
    assert_eq!(game.persons[7].person_index, 7);
    assert_eq!(game.persons[7].person_type, PersonType::Reporter);
    assert_eq!(game.persons[7].explain(), "#7(0)");
    assert_eq!(game.persons[0].explain(), "#0(80)");
}

#[test]
fn stages_follow_each_other() {
    assert_eq!(TurnStage::Begin.next(), Some(TurnStage::Distribute));
    assert_eq!(TurnStage::Distribute.next(), Some(TurnStage::Train));
    assert_eq!(TurnStage::Train.next(), Some(TurnStage::End));
    assert_eq!(TurnStage::End.next(), None);
}

#[test]
fn run_takes_four_steps_a_turn_and_then_stops() {
    let mut game = game();
    let mut steps = 0;
    let mut turn = 0;
    let mut stage = TurnStage::Begin;
    while game.next() {
        steps += 1;
        match stage.next() {
            Some(next) => stage = next,
            None => {
                turn += 1;
                stage = TurnStage::Begin;
            }
        }
        assert_eq!(game.turn(), turn);
        assert_eq!(game.base.stage, stage);
        assert!(steps <= 311);
    }
    assert_eq!(steps, 4 * 78 - 1);
    assert_eq!(game.turn(), 77);
    assert_eq!(game.base.stage, TurnStage::End);
    for _ in 0..3 {
        assert!(!game.next());
        assert_eq!(game.turn(), 77);
        assert_eq!(game.base.stage, TurnStage::End);
    }
}

#[test]
fn run_past_the_last_turn_finishes_its_turn() {
    let mut game = game();
    game.base.turn = 80;
    game.base.stage = TurnStage::Train;
    assert!(game.next());
    assert_eq!((game.turn(), game.base.stage), (80, TurnStage::End));
    assert!(!game.next());
    assert_eq!((game.turn(), game.base.stage), (80, TurnStage::End));
}

#[test]
fn simulation_runs_to_the_last_stage_of_the_last_turn() {
    for seed in 0..5 {
        let mut rng = StdRng::seed_from_u64(seed);
        let mut game = game();
        assert_eq!(game.run_simulate(&RandomTrainer, &mut rng), Ok(()));
        assert_eq!(game.turn(), 77);
        assert_eq!(game.base.stage, TurnStage::End);
        assert!(!game.next());
    }
    let mut rng = StdRng::seed_from_u64(9);
    let mut game = game();
    game.base.turn = 70;
    game.base.stage = TurnStage::Train;
    assert_eq!(game.run_simulate(&RandomTrainer, &mut rng), Ok(()));
    assert_eq!((game.turn(), game.base.stage), (77, TurnStage::End));
}

#[test]
fn race_turn_allows_the_race_alone() {
    let mut game = game();
    game.base.turn = 11;
    assert_eq!(game.is_race_turn(), Ok(true));
    assert_eq!(game.list_actions(), Ok(moves(&[Race])));
    assert_eq!(game.list_actions(), Ok(moves(&[Race])));
    game.base.uma.flags.ill = true;
    game.base.friend.out_state = FriendOutState::AfterUnlock;
    assert_eq!(game.list_actions(), Ok(moves(&[Race])));
}

#[test]
fn race_turn_empties_the_lanes() {
    let mut rng = StdRng::seed_from_u64(3);
    let mut game = game();
    game.base.turn = 10;
    game.base.stage = TurnStage::Distribute;
    let mut filled = false;
    for _ in 0..20 {
        assert_eq!(game.run_stage(&RandomTrainer, &mut rng), Ok(()));
        filled = filled || game.distribution().iter().any(|lane| !lane.is_empty());
    }
    assert!(filled);
    game.base.distribution = vec![vec![0], vec![1], vec![2], vec![3], vec![4]];
    game.base.turn = 11;
    for _ in 0..2 {
        assert_eq!(game.run_stage(&RandomTrainer, &mut rng), Ok(()));
        assert_eq!(game.base.distribution, vec![Vec::<i32>::new(); 5]);
        assert_eq!(game.list_actions(), Ok(moves(&[Race])));
        assert_eq!((game.turn(), game.base.stage), (11, TurnStage::Distribute));
    }
}

#[test]
fn turn_outside_the_run_is_refused() {
    let mut rng = StdRng::seed_from_u64(3);
    let mut game = game();
    game.base.turn = -1;
    assert_eq!(game.is_race_turn(), Err(SimError::InvalidTurn));
    assert_eq!(game.list_actions(), Err(SimError::InvalidTurn));
    game.base.stage = TurnStage::Distribute;
    assert_eq!(game.run_stage(&RandomTrainer, &mut rng), Err(SimError::InvalidTurn));
    game.base.stage = TurnStage::Train;
    assert_eq!(game.run_stage(&RandomTrainer, &mut rng), Err(SimError::InvalidTurn));
    game.base.stage = TurnStage::Begin;
    assert_eq!(game.run_stage(&RandomTrainer, &mut rng), Ok(()));
    game.base.turn = 78;
    assert_eq!(game.is_race_turn(), Err(SimError::InvalidTurn));
    assert_eq!(game.run_simulate(&RandomTrainer, &mut rng), Err(SimError::InvalidTurn));
}

#[test]
fn free_turn_allows_trainings_rest_and_outing() {
    let mut game = game();
    let base = [Train(0), Train(1), Train(2), Train(3), Train(4), Sleep, NormalOuting];
    game.base.turn = 0;
    assert_eq!(game.list_actions(), Ok(moves(&base)));
    game.base.turn = 13;
    assert_eq!(game.list_actions(), Ok(moves(&base)));
    game.base.turn = 72;
    assert_eq!(game.list_actions(), Ok(moves(&base)));
    game.base.turn = 76;
    assert_eq!(game.list_actions(), Ok(moves(&base)));
}

#[test]
fn race_is_open_from_turn_14_to_turn_71() {
    let mut game = game();
    let raced = [Train(0), Train(1), Train(2), Train(3), Train(4), Sleep, NormalOuting, Race];
    for turn in [14, 35, 40, 59, 64, 71] {
        game.base.turn = turn;
        assert_eq!(game.list_actions(), Ok(moves(&raced)));
    }
}

#[test]
fn summer_camp_allows_race_and_outing_in_place_of_rest() {
    let mut game = game();
    game.base.uma.flags.ill = true;
    game.base.friend.out_state = FriendOutState::AfterUnlock;
    let camp = [Train(0), Train(1), Train(2), Train(3), Train(4), Race, NormalOuting];
    for turn in [36, 37, 38, 39, 60, 61, 62, 63] {
        game.base.turn = turn;
        assert!(game.is_xiahesu());
        assert_eq!(game.list_actions(), Ok(moves(&camp)));
    }
    for turn in [0, 35, 40, 59, 64, 77, -5] {
        game.base.turn = turn;
        assert!(!game.is_xiahesu());
    }
}

#[test]
fn clinic_is_open_for_an_ill_trainee() {
    let mut game = game();
    game.base.uma.flags.ill = true;
    game.base.turn = 5;
    assert_eq!(
        game.list_actions(),
        Ok(moves(&[Train(0), Train(1), Train(2), Train(3), Train(4), Sleep, NormalOuting, Clinic]))
    );
    game.base.turn = 20;
    assert_eq!(
        game.list_actions(),
        Ok(moves(&[
            Train(0),
            Train(1),
            Train(2),
            Train(3),
            Train(4),
            Sleep,
            NormalOuting,
            Race,
            Clinic
        ]))
    );
}

#[test]
fn friend_outing_needs_an_open_outing_before_the_last_stretch() {
    let mut game = game();
    let plain = [Train(0), Train(1), Train(2), Train(3), Train(4), Sleep, NormalOuting];
    let with_friend =
        [Train(0), Train(1), Train(2), Train(3), Train(4), Sleep, NormalOuting, FriendOuting];
    game.base.turn = 5;
    game.base.friend.out_state = FriendOutState::AfterUnlock;
    assert_eq!(game.list_actions(), Ok(moves(&with_friend)));
    game.base.friend.out_used = [true, true, false, true, true];
    assert_eq!(game.list_actions(), Ok(moves(&with_friend)));
    game.base.friend.out_used = [true; 5];
    assert_eq!(game.list_actions(), Ok(moves(&plain)));
    game.base.friend.out_used = [false; 5];
    game.base.turn = 72;
    assert_eq!(game.list_actions(), Ok(moves(&plain)));
    game.base.turn = 5;
    game.base.friend.out_state = FriendOutState::BeforeUnlock;
    assert_eq!(game.list_actions(), Ok(moves(&plain)));
    assert!(all_used(&[true; 5]));
    assert!(!all_used(&[true, true, true, true, false]));
}

#[test]
fn basic_moves_change_nothing() {
    let mut rng = StdRng::seed_from_u64(3);
    let mut game = game();
    game.base.turn = 20;
    game.base.stage = TurnStage::Train;
    game.base.distribution = vec![vec![0], vec![1], vec![2], vec![3], vec![4]];
    let uma = game.base.uma;
    let persons = game.persons.clone();
    for action in [Train(2), Race, Sleep, FriendOuting, NormalOuting, Clinic] {
        assert_eq!(action.as_base_action(), Some(action));
        assert_eq!(BasicAction(action).as_base_action(), Some(action));
        assert_eq!(action.apply(&mut game.base, &mut rng), Ok(()));
        assert_eq!(BasicAction(action).apply(&mut game, &mut rng), Ok(()));
        assert_eq!(game.apply_action(&BasicAction(action), &mut rng), Ok(()));
    }
    assert_eq!(BaseAction::do_train(&mut game.base, 3, &mut rng), Ok(()));
    assert_eq!(BaseAction::do_race(&mut game.base, &mut rng), Ok(()));
    assert_eq!(BaseAction::do_sleep(&mut game.base, &mut rng), Ok(()));
    assert_eq!(BaseAction::do_friend_outing(&mut game.base, &mut rng), Ok(()));
    assert_eq!(BaseAction::do_normal_outing(&mut game.base, &mut rng), Ok(()));
    assert_eq!(BaseAction::do_clinic(&mut game.base, &mut rng), Ok(()));
    assert_eq!(game.run_stage(&RandomTrainer, &mut rng), Ok(()));
    assert_eq!((game.turn(), game.base.stage), (20, TurnStage::Train));
    assert_eq!(game.base.uma, uma);
    assert_eq!(game.persons, persons);
    assert_eq!(game.base.distribution, vec![vec![0], vec![1], vec![2], vec![3], vec![4]]);
}

struct Stubborn(usize);

impl Trainer<BasicGame, BasicAction> for Stubborn {
    fn select_action(
        &self,
        _game: &BasicGame,
        _actions: &[BasicAction],
        _rng: &mut StdRng,
    ) -> Result<usize, SimError> {
        Ok(self.0)
    }

    fn select_choice(
        &self,
        _game: &BasicGame,
        _choices: &[ActionValue],
        _rng: &mut StdRng,
    ) -> Result<usize, SimError> {
        Err(SimError::InvalidSelection)
    }
}

#[test]
fn choice_outside_the_list_is_refused() {
    let mut rng = StdRng::seed_from_u64(3);
    let mut game = game();
    game.base.stage = TurnStage::Train;
    // seven moves are legal on turn 0
    assert_eq!(game.run_stage(&Stubborn(6), &mut rng), Ok(()));
    assert_eq!(game.run_stage(&Stubborn(7), &mut rng), Err(SimError::InvalidSelection));
    assert_eq!(game.run_stage(&Stubborn(usize::MAX), &mut rng), Err(SimError::InvalidSelection));
    assert_eq!(game.run_simulate(&Stubborn(7), &mut rng), Err(SimError::InvalidSelection));
    assert_eq!((game.turn(), game.base.stage), (0, TurnStage::Train));
    // on a race turn one move is legal
    game.base.turn = 11;
    assert_eq!(game.run_stage(&Stubborn(0), &mut rng), Ok(()));
    assert_eq!(game.run_stage(&Stubborn(1), &mut rng), Err(SimError::InvalidSelection));
}

#[test]
fn trainer_rests_a_tired_trainee() {
    let mut game = game();
    game.base.uma.vital = 44;
    game.base.uma.motivation = 1;
    let actions = moves(&[Train(0), NormalOuting, Sleep, Race]);
    for seed in 0..50 {
        let mut rng = StdRng::seed_from_u64(seed);
        assert_eq!(RandomTrainer.select_action(&game, &actions, &mut rng), Ok(2));
    }
    // no rest on the list: the first move
    let actions = moves(&[Race, Train(0), NormalOuting]);
    for seed in 0..50 {
        let mut rng = StdRng::seed_from_u64(seed);
        assert_eq!(RandomTrainer.select_action(&game, &actions, &mut rng), Ok(0));
    }
}

#[test]
fn trainer_cheers_up_a_trainee_short_of_the_best_motivation() {
    let mut game = game();
    game.base.uma.vital = 45;
    game.base.uma.motivation = 4;
    let actions = moves(&[Train(0), Sleep, NormalOuting, Race, FriendOuting]);
    let mut picked = [0usize; 5];
    for seed in 0..200 {
        let mut rng = StdRng::seed_from_u64(seed);
        let choice = RandomTrainer.select_action(&game, &actions, &mut rng).unwrap();
        picked[choice] += 1;
    }
    assert_eq!(picked[0] + picked[1] + picked[3], 0);
    assert!(picked[2] > 0 && picked[4] > 0);
}

#[test]
fn trainer_trains_a_trainee_in_good_shape() {
    let mut game = game();
    game.base.uma.vital = 45;
    game.base.uma.motivation = 5;
    let actions = game.list_actions().unwrap();
    let mut picked = [0usize; 7];
    for seed in 0..300 {
        let mut rng = StdRng::seed_from_u64(seed);
        let choice = RandomTrainer.select_action(&game, &actions, &mut rng).unwrap();
        picked[choice] += 1;
    }
    assert_eq!(picked[5] + picked[6], 0);
    assert!(picked[..5].iter().all(|n| *n > 0));
}

#[test]
fn trainer_takes_the_first_move_when_none_suits() {
    let mut game = game();
    game.base.uma.vital = 100;
    game.base.uma.motivation = 5;
    let actions = moves(&[Race, Sleep, Clinic]);
    let mut rng = StdRng::seed_from_u64(1);
    assert_eq!(RandomTrainer.select_action(&game, &actions, &mut rng), Ok(0));
    let none: Vec<BasicAction> = vec![];
    assert_eq!(RandomTrainer.select_action(&game, &none, &mut rng), Ok(0));
}

#[test]
fn moves_suit_the_state_of_the_trainee() {
    let mut uma = trainee(1);
    uma.vital = 10;
    assert!(is_suited(&uma, Some(Sleep)));
    assert!(!is_suited(&uma, Some(Train(0))));
    assert!(!is_suited(&uma, None));
    uma.vital = 45;
    uma.motivation = 4;
    assert!(is_suited(&uma, Some(NormalOuting)));
    assert!(is_suited(&uma, Some(FriendOuting)));
    assert!(!is_suited(&uma, Some(Sleep)));
    uma.motivation = 5;
    assert!(is_suited(&uma, Some(Train(4))));
    assert!(!is_suited(&uma, Some(NormalOuting)));
    assert!(!is_suited(&uma, None));
    assert_eq!(indices(4), vec![0, 1, 2, 3]);
    assert_eq!(indices(0), Vec::<usize>::new());
}

#[test]
fn trainer_picks_a_choice_from_the_list() {
    let game = game();
    let choices = vec![ActionValue::default(); 3];
    let mut picked = [0usize; 3];
    for seed in 0..200 {
        let mut rng = StdRng::seed_from_u64(seed);
        let choice = Trainer::<BasicGame, BasicAction>::select_choice(
            &RandomTrainer,
            &game,
            &choices,
            &mut rng,
        )
        .unwrap();
        picked[choice] += 1;
    }
    assert!(picked.iter().all(|n| *n > 0));
    let mut rng = StdRng::seed_from_u64(1);
    assert_eq!(
        Trainer::<BasicGame, BasicAction>::select_choice(&RandomTrainer, &game, &[], &mut rng),
        Err(SimError::InvalidSelection)
    );
    assert_eq!(
        Trainer::<BasicGame, BasicAction>::select_choice(
            &RandomTrainer,
            &game,
            &choices[..1],
            &mut rng
        ),
        Ok(0)
    );
}

fn event(id: u32, trigger_prob: i32) -> EventData {
    EventData {
        id,
        name: "windfall".to_string(),
        trigger_prob,
        bonus: ActionValue { status_pt: [1, 2, 3, 4, 5, 6], vital: -7 },
    }
}

#[test]
fn certain_event_strikes_and_is_counted() {
    let mut rng = StdRng::seed_from_u64(1);
    let mut game = game();
    for n in 1..=3 {
        assert_eq!(game.apply_event(&event(40, 100), &mut rng), Ok(true));
        assert_eq!(game.events().count(40), n);
        assert_eq!(game.uma().five_status, [90 + n as i32, 80 + 2 * n as i32, 70 + 3 * n as i32, 60 + 4 * n as i32, 50 + 5 * n as i32]);
        assert_eq!(game.uma().skill_pt, 120 + 6 * n as i32);
        assert_eq!(game.uma().vital, 100 - 7 * n as i32);
    }
    assert_eq!(game.apply_event(&event(41, 250), &mut rng), Ok(true));
    assert_eq!(game.events().count(41), 1);
    assert_eq!(game.events().count(40), 3);
    assert_eq!(game.events().count(42), 0);
    assert_eq!((game.turn(), game.base.stage), (0, TurnStage::Begin));
}

#[test]
fn impossible_event_never_strikes() {
    let mut game = game();
    for seed in 0..200 {
        let mut rng = StdRng::seed_from_u64(seed);
        assert_eq!(game.apply_event(&event(40, 0), &mut rng), Ok(false));
        assert_eq!(game.apply_event(&event(40, -100), &mut rng), Ok(false));
    }
    assert_eq!(game.events().count(40), 0);
    assert_eq!(game.uma().vital, 100);
}

#[test]
fn uncertain_event_strikes_now_and_then() {
    let mut game = game();
    let mut struck = 0;
    for seed in 0..400 {
        let mut rng = StdRng::seed_from_u64(seed);
        if game.apply_event(&event(40, 30), &mut rng).unwrap() {
            struck += 1;
        }
        assert_eq!(game.events().count(40), struck);
    }
    assert!(struck > 60 && struck < 180);
}

#[test]
fn event_strikes_when_the_roll_is_below_its_chance() {
    assert!(strikes(100, 99));
    assert!(strikes(100, 0));
    assert!(strikes(1000, 99));
    assert!(strikes(30, 29));
    assert!(!strikes(30, 30));
    assert!(strikes(1, 0));
    assert!(!strikes(0, 0));
    assert!(!strikes(-1, 0));
    assert!(!strikes(i32::MIN, 0));
    assert!(strikes(99, 98));
    assert!(!strikes(99, 99));
}

#[test]
fn event_log_counts_each_event_by_itself() {
    let mut log = EventLog::new();
    assert_eq!(log.count(1), 0);
    log.record(1);
    log.record(2);
    log.record(1);
    assert_eq!(log.count(1), 2);
    assert_eq!(log.count(2), 1);
    assert_eq!(log.count(3), 0);
    assert_eq!(log.count(u32::MAX), 0);
}

#[test]
fn cells_of_the_distribution_have_a_column_for_each_lane() {
    let mut game = game();
    game.base.distribution = vec![vec![0, 6], vec![], vec![2], vec![], vec![1, 3, 4, 5]];
    let table = game.distribution_cells();
    assert_eq!(table.len(), 6);
    assert!(table.iter().all(|row| row.len() == 5));
    assert_eq!(table[0], vec!["#0(80)", "", "#2(85)", "", "#1(20)"]);
    assert_eq!(table[1], vec!["#6(0)", "", "", "", "#3(0)"]);
    assert_eq!(table[2], vec!["", "", "", "", "#4(0)"]);
    assert_eq!(table[3], vec!["", "", "", "", "#5(0)"]);
    assert_eq!(table[4], vec![""; 5]);
    assert_eq!(table[5], vec![""; 5]);
    assert_eq!(game.cell(0, 4), "#1(20)");
    assert_eq!(game.cell(0, 5), "");
    game.base.distribution = vec![vec![99, -1]];
    assert_eq!(game.cell(0, 0), "");
    assert_eq!(game.cell(1, 0), "");
    assert_eq!(game.distribution_cells()[0], vec![""; 5]);
    assert_eq!(titles(), vec!["速", "耐", "力", "根", "智"]);
}

#[test]
fn distribution_is_drawn_as_a_table() {
    let mut game = game();
    game.base.distribution = vec![vec![0, 6], vec![], vec![2], vec![], vec![1, 3, 4, 5]];
    let rule = "+--------------+--------------+--------------+--------------+--------------+";
    let line = "|--------------+--------------+--------------+--------------+--------------|";
    let expected = [
        rule,
        "| 速           | 耐           | 力           | 根           | 智           |",
        "+==========================================================================+",
        "| #0(80)       |              | #2(85)       |              | #1(20)       |",
        line,
        "| #6(0)        |              |              |              | #3(0)        |",
        line,
        "|              |              |              |              | #4(0)        |",
        line,
        "|              |              |              |              | #5(0)        |",
        line,
        "|              |              |              |              |              |",
        line,
        "|              |              |              |              |              |",
        rule,
    ];
    assert_eq!(game.explain_distribution(), expected.join("\n"));
    // the same lanes are drawn the same way
    assert_eq!(game.explain_distribution(), game.explain_distribution());
    game.base.distribution = vec![Vec::new(); 5];
    assert!(!game.explain_distribution().contains('#'));
}

#[test]
fn facility_level_rises_every_four_trainings() {
    let mut game = game();
    game.base.train_level_count = [0, 3, 4, 15, 16];
    let levels: Vec<usize> = (0..5).map(|lane| game.train_level(lane)).collect();
    assert_eq!(levels, vec![1, 1, 2, 4, 5]);
    assert_eq!(game.absent_rate_drop(), 0);
    assert!(!game.has_group_buff());
}

#[test]
fn copy_of_a_game_runs_on_its_own() {
    let mut rng = StdRng::seed_from_u64(5);
    let mut game = game();
    game.base.stage = TurnStage::Distribute;
    game.base.turn = 3;
    game.apply_event(&event(9, 100), &mut rng).unwrap();
    let mut copy = game.clone();
    assert_eq!(copy.persons, game.persons);
    assert_eq!(copy.base.uma, game.base.uma);
    assert_eq!(copy.base.deck, game.base.deck);
    assert_eq!(copy.base.distribution, game.base.distribution);
    assert_eq!(copy.events().count(9), 1);
    assert_eq!((copy.turn(), copy.base.stage), (3, TurnStage::Distribute));
    copy.run_simulate(&RandomTrainer, &mut rng).unwrap();
    copy.apply_event(&event(9, 100), &mut rng).unwrap();
    assert_eq!((copy.turn(), copy.base.stage), (77, TurnStage::End));
    assert_eq!(copy.events().count(9), 2);
    assert_eq!((game.turn(), game.base.stage), (3, TurnStage::Distribute));
    assert_eq!(game.events().count(9), 1);
    assert_eq!(game.base.distribution, vec![Vec::<i32>::new(); 5]);
}

#[test]
fn basic_game_reads_as_its_shared_state() {
    let game = game();
    let base: &BaseGame = &game;
    assert_eq!(base.turn, 0);
    assert_eq!(game.uma.uma_id, 101901);
    let action = BasicAction(Train(3));
    let inner: &BaseAction = &action;
    assert_eq!(*inner, Train(3));
}
