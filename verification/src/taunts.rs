//! The taunt feed: a bounded queue of display strings, and the three fixed
//! pools the opponent's taunts are drawn from.

use vstd::prelude::*;

use std::collections::VecDeque;

verus! {

/// The feed never shows more than this many texts.
pub const TAUNT_CAP: usize = 4;

/// The number of texts in the random-taunt pool.
pub const RANDOM_INSULT_COUNT: usize = 5;

/// The number of texts in each of the two after-hit pools.
pub const HIT_INSULT_COUNT: usize = 4;

/// The pool drawn from when nothing notable happened, by index.
pub open spec fn spec_random_insult(i: int) -> Seq<char> {
    if i == 0 {
        "I will end you"@
    } else if i == 1 {
        "Your puny fleet is no match for me"@
    } else if i == 2 {
        "Mess with the best and die like the rest"@
    } else if i == 3 {
        "Don't bring a knife to a gunfight"@
    } else {
        "Stop playing hide and seek"@
    }
}

/// The pool drawn from after the opponent hit a player ship, by index.
pub open spec fn spec_insult_after_hit(i: int) -> Seq<char> {
    if i == 0 {
        "There's nothing like the smell of napalm in the morning"@
    } else if i == 1 {
        "You should've stayed at home"@
    } else if i == 2 {
        "Go home and be a family man!"@
    } else {
        "I salute my fallen enemy!"@
    }
}

/// The pool drawn from after the opponent itself was hit, by index.
/// It holds the same texts as the after-hit pool.
pub open spec fn spec_insult_after_being_hit(i: int) -> Seq<char> {
    spec_insult_after_hit(i)
}

/// Returns the `i`-th text of the random-taunt pool.
pub fn random_insult(i: usize) -> (r: String)
    requires
        i < 5,
    ensures
        r@ == spec_random_insult(i as int),
{
    match i {
        0 => "I will end you".to_owned(),
        1 => "Your puny fleet is no match for me".to_owned(),
        2 => "Mess with the best and die like the rest".to_owned(),
        3 => "Don't bring a knife to a gunfight".to_owned(),
        _ => "Stop playing hide and seek".to_owned(),
    }
}

/// Returns the `i`-th text of the pool used after the opponent hit a player
/// ship.
pub fn insult_after_hit(i: usize) -> (r: String)
    requires
        i < 4,
    ensures
        r@ == spec_insult_after_hit(i as int),
{
    match i {
        0 => "There's nothing like the smell of napalm in the morning".to_owned(),
        1 => "You should've stayed at home".to_owned(),
        2 => "Go home and be a family man!".to_owned(),
        _ => "I salute my fallen enemy!".to_owned(),
    }
}

/// Returns the `i`-th text of the pool used after the opponent itself was hit.
pub fn insult_after_being_hit(i: usize) -> (r: String)
    requires
        i < 4,
    ensures
        r@ == spec_insult_after_being_hit(i as int),
{
    insult_after_hit(i)
}

/// The feed after `t` has been pushed onto contents `s`: the text goes to the
/// back, and when the feed was already full the oldest entry leaves the front.
pub open spec fn feed_after_push(s: Seq<Seq<char>>, t: Seq<char>) -> Seq<Seq<char>> {
    if s.len() < 4 {
        s.push(t)
    } else {
        s.push(t).skip(1)
    }
}

/// The taunt feed: display texts in insertion order, oldest first, at most
/// four at a time.
pub struct TauntQueue {
    pub items: VecDeque<String>,
}

impl View for TauntQueue {
    type V = Seq<Seq<char>>;

    open spec fn view(&self) -> Seq<Seq<char>> {
        Seq::new(self.items@.len(), |i: int| self.items@[i]@)
    }
}

impl TauntQueue {
    /// The feed never holds more than four texts.
    pub open spec fn wf(self) -> bool {
        self@.len() <= 4
    }

    /// An empty feed.
    pub fn new() -> (q: TauntQueue)
        ensures
            q.wf(),
            q@ == Seq::<Seq<char>>::empty(),
    {
        let q = TauntQueue { items: VecDeque::new() };
        proof {
            assert(q@ =~= Seq::<Seq<char>>::empty());
        }
        q
    }

    /// How many texts the feed currently holds.
    pub fn len(&self) -> (n: usize)
        ensures
            n == self@.len(),
    {
        self.items.len()
    }

    /// Reads the `i`-th text, oldest first.
    pub fn text_at(&self, i: usize) -> (t: &String)
        requires
            i < self@.len(),
        ensures
            t@ == self@[i as int],
    {
        &self.items[i]
    }

    /// Appends a text; when the feed is already full, the oldest entry is
    /// dropped from the front.
    pub fn push(&mut self, t: String)
        requires
            old(self).wf(),
        ensures
            final(self).wf(),
            final(self)@ == feed_after_push(old(self)@, t@),
    {
        self.items.push_back(t);
        if self.items.len() > TAUNT_CAP {
            self.items.pop_front();
        }
        proof {
            assert(self@ =~= feed_after_push(old(self)@, t@));
        }
    }
}

/// However many texts have been pushed, a feed that was within its bound
/// stays within it; pushing onto a full feed drops exactly the oldest entry
/// and keeps the other three, in order, followed by the new text.
pub proof fn lemma_feed_bounded(s: Seq<Seq<char>>, t: Seq<char>)
    requires
        s.len() <= 4,
    ensures
        feed_after_push(s, t).len() <= 4,
        s.len() < 4 ==> feed_after_push(s, t) == s.push(t),
        s.len() == 4 ==> feed_after_push(s, t).len() == 4 && feed_after_push(s, t).last() == t
            && forall|i: int| 0 <= i < 3 ==> feed_after_push(s, t)[i] == s[i + 1],
{
    if s.len() == 4 {
        assert(feed_after_push(s, t).last() == t);
    }
}

} // verus!
