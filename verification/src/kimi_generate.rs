//! The generation loop: the prompt's tokens are fed to the decoder, then
//! tokens are drawn and fed back until enough have been generated or the
//! end token is drawn.
//!
//! The decoder's pass and the draw happen outside; [`Generation`] says
//! what is done next and takes what came back.

use vstd::prelude::*;

verus! {

/// What a generation asks for next.
#[derive(Debug, Clone, Copy, PartialEq, Eq, Structural)]
pub enum Action {
    /// Run the decoder on a token.
    Feed(u32),
    /// Draw a token from the decoder's scores.
    Draw,
    /// The generation has ended.
    Stop,
}

/// A generation under way.
#[derive(Debug)]
pub struct Generation {
    pub prompt: Vec<u32>,
    pub max_new_tokens: usize,
    pub eos_id: Option<u32>,
    /// The tokens generated so far.
    pub generated: Vec<u32>,
    /// How many tokens, of the prompt and then of the generated ones,
    /// have been fed.
    pub fed: usize,
    /// The end token was drawn.
    pub ended: bool,
}

impl Generation {
    /// All but the last of the generated tokens have been fed, and there
    /// are no more of them than asked for; nothing was generated before
    /// the whole prompt was fed; and the end token is not among them.
    pub open spec fn well_formed(&self) -> bool {
        &&& self.prompt@.len() + self.max_new_tokens <= usize::MAX
        &&& self.generated@.len() <= self.max_new_tokens
        &&& self.fed <= self.prompt@.len() + self.generated@.len()
        &&& self.generated@.len() > 0 || self.ended ==> self.fed >= self.prompt@.len()
            + self.generated@.len() - 1 && self.fed >= self.prompt@.len()
        &&& self.ended ==> self.fed == self.prompt@.len() + self.generated@.len()
        &&& self.eos_id is Some ==> !self.generated@.contains(self.eos_id->0)
    }

    /// The tokens in the order they are fed.
    pub open spec fn tokens(&self) -> Seq<u32> {
        self.prompt@ + self.generated@
    }

    /// What comes next: a token that has not been fed is; after that a
    /// token is drawn, unless the end token was or enough have been.
    pub open spec fn next(&self) -> Action {
        if self.fed < self.tokens().len() {
            Action::Feed(self.tokens()[self.fed as int])
        } else if self.ended || self.generated@.len() == self.max_new_tokens {
            Action::Stop
        } else {
            Action::Draw
        }
    }

    /// A generation that has not begun.
    pub fn new(prompt: Vec<u32>, max_new_tokens: usize, eos_id: Option<u32>) -> (g: Self)
        requires
            prompt@.len() + max_new_tokens <= usize::MAX,
        ensures
            g.well_formed(),
            g.prompt == prompt,
            g.max_new_tokens == max_new_tokens,
            g.eos_id == eos_id,
            g.generated@ == Seq::<u32>::empty(),
            g.fed == 0,
            !g.ended,
    {
        Generation { prompt, max_new_tokens, eos_id, generated: Vec::new(), fed: 0, ended: false }
    }

    /// What comes next.
    pub fn action(&self) -> (a: Action)
        requires
            self.well_formed(),
        ensures
            a == self.next(),
    {
        if self.fed < self.prompt.len() {
            return Action::Feed(self.prompt[self.fed]);
        }
        let at = self.fed - self.prompt.len();
        if at < self.generated.len() {
            Action::Feed(self.generated[at])
        } else if self.ended || self.generated.len() == self.max_new_tokens {
            Action::Stop
        } else {
            Action::Draw
        }
    }

    /// A token was fed.
    pub fn on_fed(&mut self)
        requires
            old(self).well_formed(),
            old(self).next() is Feed,
        ensures
            final(self).well_formed(),
            final(self).fed == old(self).fed + 1,
            final(self).prompt == old(self).prompt,
            final(self).generated == old(self).generated,
            final(self).max_new_tokens == old(self).max_new_tokens,
            final(self).eos_id == old(self).eos_id,
            final(self).ended == old(self).ended,
            0 <= steps_left(*final(self)) < steps_left(*old(self)),
    {
        self.fed += 1;
    }

    /// A token was drawn: the end token ends the generation and is not
    /// kept, any other is kept.
    pub fn on_drawn(&mut self, token: u32)
        requires
            old(self).well_formed(),
            old(self).next() is Draw,
        ensures
            final(self).well_formed(),
            final(self).fed == old(self).fed,
            final(self).prompt == old(self).prompt,
            final(self).max_new_tokens == old(self).max_new_tokens,
            final(self).eos_id == old(self).eos_id,
            final(self).ended == (old(self).eos_id == Some(token)),
            final(self).generated@ == (if old(self).eos_id == Some(token) {
                old(self).generated@
            } else {
                old(self).generated@.push(token)
            }),
            0 <= steps_left(*final(self)) < steps_left(*old(self)),
    {
        let end = match self.eos_id {
            Some(eos) => eos == token,
            None => false,
        };
        if end {
            self.ended = true;
        } else {
            let ghost was = self.generated@;
            self.generated.push(token);
            proof {
                if self.eos_id is Some {
                    let eos = self.eos_id->0;
                    assert forall|i: int| 0 <= i < self.generated@.len() implies self.generated@[i]
                        != eos by {
                        if i < was.len() {
                            assert(was.contains(was[i]));
                        }
                    }
                }
            }
        }
    }
}

/// A bound on what is left to do in a generation, which every step
/// brings down: a generation ends.
pub open spec fn steps_left(g: Generation) -> int {
    if g.ended {
        0
    } else {
        2 * (g.prompt@.len() + g.max_new_tokens) + 1 - g.fed - g.generated@.len()
    }
}

/// The tokens that a generation keeps of the tokens `drawn` one after
/// the other: those before the end token, and no more than asked for.
pub open spec fn kept_of(drawn: Seq<u32>, max_new_tokens: nat, eos_id: Option<u32>) -> Seq<u32>
    decreases drawn.len(),
{
    if drawn.len() == 0 || max_new_tokens == 0 || eos_id == Some(drawn[0]) {
        seq![]
    } else {
        seq![drawn[0]] + kept_of(drawn.skip(1), (max_new_tokens - 1) as nat, eos_id)
    }
}

/// A generation keeps no more tokens than asked for, and never the end
/// token.
pub proof fn kept_tokens_are_bounded(drawn: Seq<u32>, max_new_tokens: nat, eos_id: Option<u32>)
    ensures
        kept_of(drawn, max_new_tokens, eos_id).len() <= max_new_tokens,
        kept_of(drawn, max_new_tokens, eos_id).len() <= drawn.len(),
        forall|i: int|
            0 <= i < kept_of(drawn, max_new_tokens, eos_id).len() ==> eos_id != Some(
                #[trigger] kept_of(drawn, max_new_tokens, eos_id)[i],
            ) && kept_of(drawn, max_new_tokens, eos_id)[i] == drawn[i],
    decreases drawn.len(),
{
    if drawn.len() > 0 && max_new_tokens > 0 && eos_id != Some(drawn[0]) {
        let rest = kept_of(drawn.skip(1), (max_new_tokens - 1) as nat, eos_id);
        kept_tokens_are_bounded(drawn.skip(1), (max_new_tokens - 1) as nat, eos_id);
        let all = kept_of(drawn, max_new_tokens, eos_id);
        assert forall|i: int| 0 <= i < all.len() implies eos_id != Some(#[trigger] all[i])
            && all[i] == drawn[i] by {
            if i > 0 {
                assert(all[i] == rest[i - 1]);
            }
        }
    }
}

/// A token drawn while a generation goes on is kept, unless it is the end
/// token: what has been kept is at every time what is kept of all tokens
/// drawn.
pub proof fn drawing_extends_what_is_kept(
    drawn: Seq<u32>,
    token: u32,
    max_new_tokens: nat,
    eos_id: Option<u32>,
)
    requires
        drawn.len() < max_new_tokens,
        eos_id is Some ==> !drawn.contains(eos_id->0),
    ensures
        kept_of(drawn, max_new_tokens, eos_id) == drawn,
        kept_of(drawn.push(token), max_new_tokens, eos_id) == (if eos_id == Some(token) {
            drawn
        } else {
            drawn.push(token)
        }),
    decreases drawn.len(),
{
    let more = drawn.push(token);
    if drawn.len() == 0 {
        assert(more.skip(1) =~= seq![]);
        assert(kept_of(drawn, max_new_tokens, eos_id) =~= drawn);
        assert(kept_of(more.skip(1), (max_new_tokens - 1) as nat, eos_id) =~= seq![]);
        if eos_id != Some(token) {
            assert(kept_of(more, max_new_tokens, eos_id) =~= drawn.push(token));
        } else {
            assert(kept_of(more, max_new_tokens, eos_id) =~= drawn);
        }
    } else {
        let rest = drawn.skip(1);
        assert(drawn.contains(drawn[0]));
        if eos_id is Some && rest.contains(eos_id->0) {
            let j = choose|j: int| 0 <= j < rest.len() && rest[j] == eos_id->0;
            assert(drawn[j + 1] == eos_id->0);
        }
        drawing_extends_what_is_kept(rest, token, (max_new_tokens - 1) as nat, eos_id);
        assert(more.skip(1) =~= rest.push(token));
        assert(seq![drawn[0]] + rest =~= drawn);
        assert(seq![drawn[0]] + rest.push(token) =~= drawn.push(token));
    }
}

/// What comes next, case by case. The prompt is fed first, token by
/// token and in order, then what has been generated; only when all of it
/// has been fed is another token drawn, and none once the end token has
/// been or enough have been.
pub proof fn everything_is_fed_before_the_next_draw(g: Generation)
    requires
        g.well_formed(),
    ensures
        g.fed < g.prompt@.len() ==> g.next() == Action::Feed(g.prompt@[g.fed as int]),
        g.prompt@.len() <= g.fed < g.prompt@.len() + g.generated@.len() ==> g.next()
            == Action::Feed(g.generated@[g.fed - g.prompt@.len()]),
        g.next() is Draw <==> g.fed == g.prompt@.len() + g.generated@.len() && !g.ended
            && g.generated@.len() < g.max_new_tokens,
        g.next() is Stop <==> g.fed == g.prompt@.len() + g.generated@.len() && (g.ended
            || g.generated@.len() == g.max_new_tokens),
{
}

/// A generation that has stopped has kept as many tokens as asked for,
/// unless the end token was drawn, and none of them is the end token.
pub proof fn a_stopped_generation_has_enough_or_was_ended(g: Generation)
    requires
        g.well_formed(),
        g.next() is Stop,
    ensures
        g.generated@.len() == g.max_new_tokens || g.ended,
        g.generated@.len() <= g.max_new_tokens,
        g.fed == g.prompt@.len() + g.generated@.len(),
        g.eos_id matches Some(eos) ==> forall|i: int|
            0 <= i < g.generated@.len() ==> #[trigger] g.generated@[i] != eos,
{
    if g.eos_id is Some {
        assert forall|i: int| 0 <= i < g.generated@.len() implies #[trigger] g.generated@[i]
            != g.eos_id->0 by {
            assert(g.generated@.contains(g.generated@[i]));
        }
    }
}

} // verus!
