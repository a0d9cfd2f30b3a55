//! Serving the seats: what a connection asks is done, the robots play on, and the seats are
//! told.

use vstd::prelude::*;
use crate::agent::Agent;
use crate::card::Card;
use crate::game::GameState;
use crate::game::NO_WINNER;
use crate::heuristic::appraises_all;
use crate::message::ClientMessage;
use crate::message::GameError;
use crate::message::Mode;
use crate::message::ServerMessage;
use crate::table::fresh_deck;

verus! {

impl GameState {
    /// Whether the last hand has an outcome: a seat has won it, or it ended without a winner.
    pub open spec fn decided(&self) -> bool {
        self.outcome() matches Some(winner) && (winner < 3 || winner == NO_WINNER)
    }

    /// Whether the table waits for a human: no hand is played, or it is for a human to
    /// discard or to answer a claim.
    pub open spec fn awaits_human(&self) -> bool {
        self.playing() ==> {
            &&& !self.mover().is_robot
            &&& self.offer() == Mode::Normal ==> self.owes_discard()
        }
    }

    /// Whether the table is between two turns: no hand is played, or the seat whose turn it
    /// is has yet to draw or to answer.
    pub open spec fn between_turns(&self) -> bool {
        self.playing() ==> !self.owes_discard()
    }

    /// The same seats sit, robots where robots sat, and they play as they did.
    pub open spec fn same_seats(&self, before: &GameState) -> bool {
        &&& self.seats().len() == before.seats().len()
        &&& forall|seat: int|
            0 <= seat < self.seats().len() ==> {
                &&& (#[trigger] self.seats()[seat]).is_robot == before.seats()[seat].is_robot
                &&& self.seats()[seat].strategy == before.seats()[seat].strategy
            }
    }

    /// The same seats sit, and the wildcard and the way of dealing are the same.
    pub open spec fn same_company(&self, before: &GameState) -> bool {
        &&& self.same_seats(before)
        &&& self.wildcard() == before.wildcard()
        &&& self.rehearsal() == before.rehearsal()
    }

    /// How many turns of robots a hand can still take at most.
    pub open spec fn left_to_play(&self) -> nat {
        if self.playing() {
            self.fuel() + 1
        } else {
            0
        }
    }

    /// The table is `before` after the turn of the robot whose turn it is: the robot has
    /// played, the turn has passed on after its discard, and all are told whose turn it is.
    /// `heard` is what is told in all, after `heard_before`.
    pub open spec fn robot_moved<F: Fn(&Agent, &Vec<Card>) -> usize>(
        &self,
        before: &GameState,
        heard_before: Seq<ServerMessage>,
        heard: Seq<ServerMessage>,
        appraise: &F,
    ) -> bool {
        exists|turned: GameState, told: Seq<ServerMessage>, discard: Option<Card>|
            {
                &&& #[trigger] turned.robot_turned(before, heard_before, told, appraise, discard)
                &&& match discard {
                    Some(card) => self.turn_passed(&turned, card),
                    None => *self == turned,
                }
                &&& heard == told.push(self.turn_notice())
            }
    }

    /// The table is `before` after the robots have played until it is for a human to act or
    /// the hand has ended: one turn of a robot after the other, as long as a hand is played
    /// and the turn is with a robot. `heard` is what is told in all, after `heard_before`.
    pub open spec fn robots_played<F: Fn(&Agent, &Vec<Card>) -> usize>(
        &self,
        before: &GameState,
        heard_before: Seq<ServerMessage>,
        heard: Seq<ServerMessage>,
        appraise: &F,
    ) -> bool
        decreases before.left_to_play(),
    {
        if before.playing() && before.mover().is_robot {
            exists|moved: GameState, told: Seq<ServerMessage>|
                if #[trigger] moved.robot_moved(before, heard_before, told, appraise)
                    && moved.left_to_play() < before.left_to_play() {
                    self.robots_played(&moved, told, heard, appraise)
                } else {
                    false
                }
        } else {
            *self == *before && heard == heard_before
        }
    }

    /// Lets the robots play until it is for a human to act or the hand has ended. After each
    /// turn of a robot all are told whose turn it is next and what is offered.
    #[verifier::rlimit(40)]
    pub fn wait_robot<F: Fn(&Agent, &Vec<Card>) -> usize>(
        &mut self,
        outbox: &mut Vec<ServerMessage>,
        appraise: &F,
    )
        requires
            old(self).wf(),
            old(self).between_turns(),
            appraises_all(appraise),
        ensures
            final(self).wf(),
            final(self).robots_played(old(self), old(outbox)@, final(outbox)@, appraise),
            final(self).between_turns(),
            final(self).playing() ==> old(self).playing() && !final(self).mover().is_robot,
            old(self).playing() && !final(self).playing() ==> final(self).decided(),
            final(self).same_company(old(self)),
            old(outbox)@.is_prefix_of(final(outbox)@),
    {
        while self.is_playing() && self.is_robot_turn()
            invariant
                self.wf(),
                self.between_turns(),
                self.playing() ==> old(self).playing(),
                old(self).playing() && !self.playing() ==> self.decided(),
                self.same_company(old(self)),
                old(outbox)@.is_prefix_of(outbox@),
                appraises_all(appraise),
                forall|end: GameState, heard: Seq<ServerMessage>| #[trigger]
                    end.robots_played(self, outbox@, heard, appraise) ==> end.robots_played(
                        old(self),
                        old(outbox)@,
                        heard,
                        appraise,
                    ),
            decreases self.left_to_play(),
        {
            let ghost before = *self;
            let ghost heard_before = outbox@;
            let discard = self.robot_turn(outbox, appraise);
            let ghost turned = *self;
            let ghost told = outbox@;
            let notice = match discard {
                Some(card) => self.next_turn(&card),
                None => ServerMessage::Turn { to: None, turn: self.turn(), mode: Mode::Normal },
            };
            outbox.push(notice);
            proof {
                let moved = *self;
                let heard_now = outbox@;
                assert(turned.robot_turned(&before, heard_before, told, appraise, discard));
                assert(moved.robot_moved(&before, heard_before, heard_now, appraise));
                assert(moved.left_to_play() < before.left_to_play());
                assert forall|end: GameState, heard: Seq<ServerMessage>| #[trigger]
                    end.robots_played(&moved, heard_now, heard, appraise)
                    implies end.robots_played(old(self), old(outbox)@, heard, appraise) by {
                    assert(end.robots_played(&before, heard_before, heard, appraise));
                }
            }
        }
        assert(self.robots_played(self, outbox@, outbox@, appraise));
    }

    /// What a human is told first when it draws on a table like this: the tile on top of the
    /// deck, or that the hand has ended where the deck is used up.
    pub open spec fn draw_notice(&self) -> ServerMessage {
        if self.stock().len() > 0 {
            ServerMessage::Draw { to: Some(self.whose_turn() as u8), card: self.stock().last() }
        } else {
            ServerMessage::End { to: None }
        }
    }

    /// The table is `before` after the human whose ordinary turn it is has drawn and was told
    /// the tile. With the deck used up the hand has ended without a winner; with a winning
    /// hand drawn it has ended with the seat as the winner, and all were told. With a claim
    /// before the seat, or with no hand played, nothing has been done. `heard` is what is
    /// told in all, after `heard_before`.
    pub open spec fn human_drew(
        &self,
        before: &GameState,
        heard_before: Seq<ServerMessage>,
        heard: Seq<ServerMessage>,
    ) -> bool {
        if !(before.playing() && before.offer() == Mode::Normal) {
            *self == *before && heard == heard_before
        } else if before.stock().len() == 0 {
            &&& !self.playing()
            &&& self.outcome() == Some(NO_WINNER)
            &&& self.cleared_from(before)
            &&& heard == heard_before.push(before.draw_notice())
        } else {
            exists|ready: GameState|
                {
                    &&& #[trigger] ready.drew(before)
                    &&& if ready.wins() {
                        &&& !self.playing()
                        &&& self.outcome() == Some(before.whose_turn() as u8)
                        &&& self.cleared_from(&ready)
                        &&& heard == heard_before.push(before.draw_notice()).push(
                            ServerMessage::Hu { to: None },
                        )
                    } else {
                        &&& *self == ready
                        &&& heard == heard_before.push(before.draw_notice())
                    }
                }
        }
    }

    /// The human whose ordinary turn it is draws, and is told the tile. If the deck is used
    /// up, or the seat has won, the hand ends and all are told. With a claim before the
    /// seat, or with no hand played, nothing is done.
    pub fn human_draw(&mut self, outbox: &mut Vec<ServerMessage>)
        requires
            old(self).wf(),
            old(self).between_turns(),
        ensures
            final(self).wf(),
            final(self).human_drew(old(self), old(outbox)@, final(outbox)@),
            final(self).same_company(old(self)),
            old(outbox)@.is_prefix_of(final(outbox)@),
            final(self).playing() ==> {
                &&& old(self).playing()
                &&& final(self).whose_turn() == old(self).whose_turn()
                &&& final(self).offer() == old(self).offer()
                &&& final(self).offer() == Mode::Normal ==> final(self).owes_discard()
            },
    {
        if self.is_playing() && matches!(self.mode(), Mode::Normal) {
            let notice = self.draw_card();
            outbox.push(notice);
            if self.is_playing() {
                let ghost ready = *self;
                self.check_win(outbox);
                proof {
                    assert(ready.drew(old(self)));
                }
            }
        }
    }

    /// What the seat `seat` is told when a hand has been started: its hand and who begins.
    pub open spec fn greets(&self, seat: int, notice: ServerMessage) -> bool {
        &&& notice matches ServerMessage::Initial { to, cur_turn, hand }
        &&& to == Some(seat as u8)
        &&& cur_turn == self.whose_turn()
        &&& hand@ == self.seats()[seat].hand@
    }

    /// The table is `before` after a hand has been started and played up to the first thing
    /// a human has to do: the tiles are dealt, each seat is told its hand and who begins, the
    /// robots play, and the human whose turn it is draws. `heard` is what is told.
    pub open spec fn started_and_played<F: Fn(&Agent, &Vec<Card>) -> usize>(
        &self,
        before: &GameState,
        heard: Seq<ServerMessage>,
        appraise: &F,
    ) -> bool {
        exists|dealt: GameState, played: GameState, told: Seq<ServerMessage>|
            {
                &&& #[trigger] played.robots_played(&dealt, heard.take(3), told, appraise)
                &&& dealt.started_from(before)
                &&& heard.len() >= 3
                &&& dealt.greets(0, heard[0])
                &&& dealt.greets(1, heard[1])
                &&& dealt.greets(2, heard[2])
                &&& self.human_drew(&played, told, heard)
            }
    }

    /// Starts a hand and plays it up to the first thing a human has to do. Each seat is told
    /// its hand and who begins, in the order of the seats.
    #[verifier::rlimit(40)]
    pub fn on_start<F: Fn(&Agent, &Vec<Card>) -> usize>(&mut self, appraise: &F) -> (told: Result<
        Vec<ServerMessage>,
        GameError,
    >)
        requires
            old(self).wf(),
            appraises_all(appraise),
        ensures
            final(self).wf(),
            match told {
                Ok(notices) => {
                    &&& old(self).start_refused() is None
                    &&& final(self).started_and_played(old(self), notices@, appraise)
                    &&& final(self).awaits_human()
                    &&& final(self).same_seats(old(self))
                    &&& final(self).rehearsal() == old(self).rehearsal()
                },
                Err(error) => old(self).start_refused() == Some(error) && *final(self) == *old(
                    self,
                ),
            },
    {
        match self.start() {
            Err(error) => {
                return Err(error);
            },
            Ok(()) => {},
        }
        let ghost dealt = *self;
        let mut outbox: Vec<ServerMessage> = Vec::new();
        let mut seat: u8 = 0;
        while seat < 3
            invariant
                seat <= 3,
                *self == dealt,
                self.seats().len() == 3,
                outbox@.len() == seat,
                forall|other: int| 0 <= other < seat ==> self.greets(other, #[trigger] outbox@[other]),
            decreases 3 - seat,
        {
            outbox.push(
                ServerMessage::Initial {
                    to: Some(seat),
                    cur_turn: self.turn(),
                    hand: self.hand_of_player(seat as usize),
                },
            );
            seat += 1;
        }
        let ghost greeted = outbox@;
        self.wait_robot(&mut outbox, appraise);
        let ghost played = *self;
        let ghost told = outbox@;
        self.human_draw(&mut outbox);
        proof {
            assert(outbox@.take(3) =~= greeted);
            assert(outbox@[0] == greeted[0]);
            assert(outbox@[1] == greeted[1]);
            assert(outbox@[2] == greeted[2]);
            assert(played.robots_played(&dealt, outbox@.take(3), told, appraise));
        }
        Ok(outbox)
    }

    /// The table is `before` after the seat whose turn it is has discarded `card` and the
    /// hand has been played up to the next thing a human has to do: the turn has passed on,
    /// all were told whose turn it is, the robots have played, and the human whose turn it
    /// is has drawn. `heard` is what is told.
    pub open spec fn discarded_and_played<F: Fn(&Agent, &Vec<Card>) -> usize>(
        &self,
        before: &GameState,
        card: Card,
        heard: Seq<ServerMessage>,
        appraise: &F,
    ) -> bool {
        exists|discarded: GameState, passed: GameState, played: GameState, told: Seq<ServerMessage>|
            {
                &&& #[trigger] played.robots_played(
                    &passed,
                    seq![passed.turn_notice()],
                    told,
                    appraise,
                )
                &&& #[trigger] discarded.discarded(
                    before,
                    before.mover().hand@.index_of_first(card)->0,
                )
                &&& discarded.waits_kept(before)
                &&& passed.turn_passed(&discarded, card)
                &&& self.human_drew(&played, told, heard)
            }
    }

    /// The seat `id` discards `card`; the turn passes on and the hand is played up to the
    /// next thing a human has to do. All are told first whose turn it is after the discard
    /// and what is offered.
    #[verifier::rlimit(40)]
    pub fn on_discard<F: Fn(&Agent, &Vec<Card>) -> usize>(
        &mut self,
        id: u8,
        card: Card,
        appraise: &F,
    ) -> (told: Result<Vec<ServerMessage>, GameError>)
        requires
            old(self).wf(),
            appraises_all(appraise),
        ensures
            final(self).wf(),
            match told {
                Ok(notices) => {
                    &&& old(self).discard_refused(id as usize, card) is None
                    &&& final(self).discarded_and_played(old(self), card, notices@, appraise)
                    &&& final(self).same_company(old(self))
                    &&& old(self).awaits_human() ==> final(self).awaits_human()
                },
                Err(error) => old(self).discard_refused(id as usize, card) == Some(error)
                    && *final(self) == *old(self),
            },
    {
        match self.discard_card(id as usize, card) {
            Err(error) => {
                return Err(error);
            },
            Ok(()) => {},
        }
        let ghost discarded = *self;
        proof {
            old(self).seats()[id as int].hand@.index_of_first_ensures(card);
            let table = old(self).piles();
            assert(table[0] == old(self).seats()[0].piles());
            assert(table[1] == old(self).seats()[1].piles());
            assert(table[2] == old(self).seats()[2].piles());
            let now = self.piles();
            assert(now[0] == self.seats()[0].piles());
            assert(now[1] == self.seats()[1].piles());
            assert(now[2] == self.seats()[2].piles());
        }
        let mut outbox: Vec<ServerMessage> = Vec::new();
        let notice = self.next_turn(&card);
        outbox.push(notice);
        let ghost passed = *self;
        let ghost first = outbox@;
        self.wait_robot(&mut outbox, appraise);
        let ghost played = *self;
        let ghost told = outbox@;
        self.human_draw(&mut outbox);
        proof {
            assert(first =~= seq![passed.turn_notice()]);
            assert(played.robots_played(&passed, seq![passed.turn_notice()], told, appraise));
            assert(discarded.discarded(old(self), old(self).mover().hand@.index_of_first(card)->0));
        }
        Ok(outbox)
    }

    /// Why the seat `player` cannot answer a claim, a quadlet where `quadlet` says so and a
    /// triplet elsewhere, if it cannot: no hand is played, no such claim is offered, or it
    /// is offered to another seat.
    pub open spec fn answer_refused(&self, player: usize, quadlet: bool) -> Option<GameError> {
        if !self.playing() {
            Some(GameError::NoHand)
        } else if quadlet && !(self.offer() is Pao) {
            Some(GameError::NotPao { mode: self.offer() })
        } else if !quadlet && !(self.offer() is Ding) {
            Some(GameError::NotDing { mode: self.offer() })
        } else if player != self.whose_turn() {
            Some(GameError::NotYourTurn { player })
        } else {
            None
        }
    }

    /// What all are told of the meld when the offered claim is taken.
    pub open spec fn meld_notice(&self) -> ServerMessage {
        match self.offer() {
            Mode::Pao(card) => ServerMessage::Pao { to: None, card },
            Mode::Ding(card) => ServerMessage::Ding { to: None, card },
            Mode::Normal => ServerMessage::End { to: None },
        }
    }

    /// The table is `before` after the human whose turn it is has answered the offered
    /// claim. Taking a triplet, the seat has melded and owes a discard; taking a quadlet, it
    /// has melded and drawn; all were told of the meld. Declining, the turn has passed to the
    /// seat that plays on, all were told, the robots have played, and the human whose turn
    /// it is has drawn. `heard` is what is told.
    pub open spec fn answered<F: Fn(&Agent, &Vec<Card>) -> usize>(
        &self,
        before: &GameState,
        confirm: bool,
        heard: Seq<ServerMessage>,
        appraise: &F,
    ) -> bool {
        if confirm && before.offer() is Ding {
            self.claimed(before) && heard == seq![before.meld_notice()]
        } else if confirm {
            exists|melded: GameState|
                #[trigger] melded.claimed(before) && self.human_drew(
                    &melded,
                    seq![before.meld_notice()],
                    heard,
                )
        } else {
            exists|restored: GameState, played: GameState, told: Seq<ServerMessage>|
                {
                    &&& #[trigger] played.robots_played(
                        &restored,
                        seq![restored.turn_notice()],
                        told,
                        appraise,
                    )
                    &&& restored.turn_restored(before)
                    &&& self.human_drew(&played, told, heard)
                }
        }
    }

    /// The seat `id` answers the offered claim, a quadlet where `quadlet` says so and a
    /// triplet elsewhere. Taking it, the seat melds and all are told; after a quadlet it
    /// draws. Declining it, the turn passes to the seat that plays on, all are told, and the
    /// hand is played up to the next thing a human has to do.
    #[verifier::rlimit(40)]
    pub fn on_answer<F: Fn(&Agent, &Vec<Card>) -> usize>(
        &mut self,
        id: u8,
        quadlet: bool,
        confirm: bool,
        appraise: &F,
    ) -> (told: Result<Vec<ServerMessage>, GameError>)
        requires
            old(self).wf(),
            appraises_all(appraise),
        ensures
            final(self).wf(),
            match told {
                Ok(notices) => {
                    &&& old(self).answer_refused(id as usize, quadlet) is None
                    &&& final(self).answered(old(self), confirm, notices@, appraise)
                    &&& final(self).same_company(old(self))
                    &&& old(self).awaits_human() ==> final(self).awaits_human()
                },
                Err(error) => old(self).answer_refused(id as usize, quadlet) == Some(error)
                    && *final(self) == *old(self),
            },
    {
        if !self.is_playing() {
            return Err(GameError::NoHand);
        }
        let mode = self.mode();
        let card = match mode {
            Mode::Pao(card) => {
                if !quadlet {
                    return Err(GameError::NotDing { mode });
                }
                card
            },
            Mode::Ding(card) => {
                if quadlet {
                    return Err(GameError::NotPao { mode });
                }
                card
            },
            Mode::Normal => {
                if quadlet {
                    return Err(GameError::NotPao { mode });
                } else {
                    return Err(GameError::NotDing { mode });
                }
            },
        };
        if id != self.turn() {
            return Err(GameError::NotYourTurn { player: id as usize });
        }
        let mut outbox: Vec<ServerMessage> = Vec::new();
        if confirm {
            self.accept_claim();
            if quadlet {
                outbox.push(ServerMessage::Pao { to: None, card });
                let ghost first = outbox@;
                let ghost melded = *self;
                self.human_draw(&mut outbox);
                proof {
                    assert(first =~= seq![old(self).meld_notice()]);
                    assert(melded.claimed(old(self)));
                }
            } else {
                outbox.push(ServerMessage::Ding { to: None, card });
                assert(outbox@ =~= seq![old(self).meld_notice()]);
            }
        } else {
            let notice = self.restore_turn();
            outbox.push(notice);
            let ghost restored = *self;
            let ghost first = outbox@;
            self.wait_robot(&mut outbox, appraise);
            let ghost played = *self;
            let ghost told = outbox@;
            self.human_draw(&mut outbox);
            proof {
                assert(first =~= seq![restored.turn_notice()]);
                assert(played.robots_played(
                    &restored,
                    seq![restored.turn_notice()],
                    told,
                    appraise,
                ));
            }
        }
        Ok(outbox)
    }

    /// Why what the connection of the seat `id` asks cannot be done, if it cannot.
    pub open spec fn refused(&self, id: u8, message: ClientMessage) -> Option<GameError> {
        match message {
            ClientMessage::Test(_) => None,
            ClientMessage::Ready(_) => if id < self.seats().len() {
                None
            } else {
                Some(GameError::NoSuchSeat { player: id as usize })
            },
            ClientMessage::AddRobot(_) => if self.playing() {
                Some(GameError::HandInProgress)
            } else {
                None
            },
            ClientMessage::Start(_) => self.start_refused(),
            ClientMessage::Discard { card } => self.discard_refused(id as usize, card),
            ClientMessage::Ding { confirm } => self.answer_refused(id as usize, false),
            ClientMessage::Pao { confirm } => self.answer_refused(id as usize, true),
        }
    }

    /// The table is `before` after what the connection of the seat `id` asked has been done,
    /// and `heard` is what the seats are told.
    ///
    /// The table is set to deal from the known deck, a seat is marked ready, or a robot sits
    /// down, and nothing is told. Or a hand is started, a tile is discarded or a claim is
    /// answered, and the hand is played up to the next thing a human has to do.
    pub open spec fn handled<F: Fn(&Agent, &Vec<Card>) -> usize>(
        &self,
        before: &GameState,
        id: u8,
        message: ClientMessage,
        heard: Seq<ServerMessage>,
        appraise: &F,
    ) -> bool {
        match message {
            ClientMessage::Test(_) => {
                &&& heard.len() == 0
                &&& self.rehearsal()
                &&& self.seats() == before.seats()
                &&& self.stock() == before.stock()
                &&& self.whose_turn() == before.whose_turn()
                &&& self.resume_at() == before.resume_at()
                &&& self.wildcard() == before.wildcard()
                &&& self.offer() == before.offer()
                &&& self.outcome() == before.outcome()
                &&& self.playing() == before.playing()
            },
            ClientMessage::Ready(_) => {
                &&& heard.len() == 0
                &&& self.same_but_seats(before)
                &&& self.seats() == before.seats().update(
                    id as int,
                    Agent { ready: true, ..before.seats()[id as int] },
                )
            },
            ClientMessage::AddRobot(_) => {
                &&& heard.len() == 0
                &&& self.same_but_seats(before)
                &&& self.seats().len() == before.seats().len() + 1
                &&& self.seats().drop_last() == before.seats()
                &&& self.seats().last().is_cleared()
                &&& self.seats().last().is_robot
                &&& self.seats().last().ready
                &&& self.seats().last().strategy == if before.rehearsal() {
                    crate::agent::Strategy::Test
                } else {
                    crate::agent::Strategy::Level1
                }
            },
            ClientMessage::Start(_) => self.started_and_played(before, heard, appraise),
            ClientMessage::Discard { card } => self.discarded_and_played(
                before,
                card,
                heard,
                appraise,
            ),
            ClientMessage::Ding { confirm } => self.answered(before, confirm, heard, appraise),
            ClientMessage::Pao { confirm } => self.answered(before, confirm, heard, appraise),
        }
    }

    /// Does what the connection of the seat `id` asks and says what the seats are to be told,
    /// in order. What cannot be done is refused, and the table stays as it was.
    pub fn handle_message<F: Fn(&Agent, &Vec<Card>) -> usize>(
        &mut self,
        id: u8,
        message: ClientMessage,
        appraise: &F,
    ) -> (told: Result<Vec<ServerMessage>, GameError>)
        requires
            old(self).wf(),
            appraises_all(appraise),
        ensures
            final(self).wf(),
            old(self).awaits_human() ==> final(self).awaits_human(),
            match told {
                Ok(notices) => {
                    &&& old(self).refused(id, message) is None
                    &&& final(self).handled(old(self), id, message, notices@, appraise)
                },
                Err(error) => old(self).refused(id, message) == Some(error) && *final(self)
                    == *old(self),
            },
    {
        match message {
            ClientMessage::Test(_) => {
                self.set_test();
                assert(self.piles() == old(self).piles());
                Ok(Vec::new())
            },
            ClientMessage::Ready(_) => {
                if (id as usize) < self.players().len() {
                    self.set_ready(id as usize);
                    Ok(Vec::new())
                } else {
                    Err(GameError::NoSuchSeat { player: id as usize })
                }
            },
            ClientMessage::AddRobot(_) => {
                if self.is_playing() {
                    Err(GameError::HandInProgress)
                } else {
                    self.add_robot();
                    Ok(Vec::new())
                }
            },
            ClientMessage::Start(_) => self.on_start(appraise),
            ClientMessage::Discard { card } => self.on_discard(id, card, appraise),
            ClientMessage::Ding { confirm } => self.on_answer(id, false, confirm, appraise),
            ClientMessage::Pao { confirm } => self.on_answer(id, true, confirm, appraise),
        }
    }
}

} // verus!
