use vstd::prelude::*;
use crate::error::SimError;
use crate::game::card::SupportCard;
use crate::game::model::{PersonType, PersonView};
use crate::game::traits::Person;
use crate::text::{decimal_text, push_decimal};

verus! {

/// The card type of a team card.
pub const TEAM_CARD_TYPE: i32 = 5;

/// The card type of the scenario's own card.
pub const SCENARIO_CARD_TYPE: i32 = 6;

/// The lane type of a person that favours no lane.
pub const NO_LANE: i32 = 5;

/// A person of the basic game.
#[derive(Clone, Copy, Debug, PartialEq, Eq, Structural)]
pub struct BasePerson {
    /// The kind of the person.
    pub person_type: PersonType,
    /// The person's place in the roster.
    pub person_index: i32,
    /// The lane that the person favours, `0..=4`; 5 and more for none.
    pub train_type: i32,
    /// Rapport with the trainee.
    pub friendship: i32,
    /// The card that the person comes from; 0 for a person without a card.
    pub card_id: u32,
}

impl BasePerson {
    /// The person that a card stands for, if its type is known: a card with a
    /// lane of its own, a team card or the scenario's card.
    pub open spec fn of_card(card: SupportCard) -> Result<BasePerson, SimError> {
        if 0 <= card.card_type <= SCENARIO_CARD_TYPE {
            Ok(
                BasePerson {
                    person_type: if card.card_type <= 4 {
                        PersonType::Card
                    } else if card.card_type == TEAM_CARD_TYPE {
                        PersonType::TeamCard
                    } else {
                        PersonType::ScenarioCard
                    },
                    person_index: 0,
                    train_type: card.card_type,
                    friendship: card.friendship,
                    card_id: card.card_id,
                },
            )
        } else {
            Err(SimError::InvalidCard)
        }
    }

    /// The director: no lane of her own and no rapport yet.
    pub open spec fn director() -> BasePerson {
        BasePerson {
            person_type: PersonType::Yayoi,
            person_index: 0,
            train_type: NO_LANE,
            friendship: 0,
            card_id: 0,
        }
    }

    /// `self` at place `index` of a roster.
    pub open spec fn at(self, index: int) -> BasePerson {
        BasePerson { person_index: index as i32, ..self }
    }

    /// The person in a few characters: `#`, its place in the roster, and its
    /// rapport in brackets.
    pub open spec fn label(self) -> Seq<char> {
        seq!['#'] + decimal_text(self.person_index as int) + seq!['('] + decimal_text(
            self.friendship as int,
        ) + seq![')']
    }

    /// Writes the person in a few characters.
    pub fn explain(&self) -> (r: String)
        ensures
            r@ == self.label(),
    {
        let mut out = String::new();
        out.push('#');
        push_decimal(&mut out, self.person_index as i64);
        out.push('(');
        push_decimal(&mut out, self.friendship as i64);
        out.push(')');
        assert(out@ =~= self.label());
        out
    }

    /// Makes the person that a card stands for.
    pub fn try_from(card: &SupportCard) -> (r: Result<BasePerson, SimError>)
        ensures
            r == BasePerson::of_card(*card),
    {
        let person_type = if card.card_type < 0 || card.card_type > SCENARIO_CARD_TYPE {
            return Err(SimError::InvalidCard);
        } else if card.card_type <= 4 {
            PersonType::Card
        } else if card.card_type == TEAM_CARD_TYPE {
            PersonType::TeamCard
        } else {
            PersonType::ScenarioCard
        };
        Ok(
            BasePerson {
                person_type,
                person_index: 0,
                train_type: card.card_type,
                friendship: card.friendship,
                card_id: card.card_id,
            },
        )
    }

    /// Makes the director.
    pub fn yayoi() -> (r: BasePerson)
        ensures
            r == BasePerson::director(),
    {
        BasePerson {
            person_type: PersonType::Yayoi,
            person_index: 0,
            train_type: NO_LANE,
            friendship: 0,
            card_id: 0,
        }
    }
}

impl View for BasePerson {
    type V = PersonView;

    open spec fn view(&self) -> PersonView {
        PersonView {
            person_type: self.person_type,
            person_index: self.person_index,
            train_type: self.train_type,
            friendship: self.friendship,
        }
    }
}

impl Person for BasePerson {
    fn person_type(&self) -> (r: PersonType) {
        self.person_type
    }

    fn person_index(&self) -> (r: i32) {
        self.person_index
    }

    fn train_type(&self) -> (r: i32) {
        self.train_type
    }

    fn friendship(&self) -> (r: i32) {
        self.friendship
    }
}

} // verus!
