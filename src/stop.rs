use vstd::prelude::*;

verus! {

/// A text whose appearance in the generated output stops the generation.
pub struct StopToken(String);

/// Where matching a stop token stands after some text.
#[derive(Debug, PartialEq, Eq, Structural, Clone, Copy)]
pub enum StopTokenState {
    NotFound,
    InProgress,
    Found,
}

/// Matching state after character `c`, `index` characters of `stop` being
/// matched: the next character of `stop` extends the match, anything else
/// drops it (`c` is not tried again as a first character).
pub open spec fn advance(stop: Seq<char>, index: nat, c: char) -> nat {
    if index < stop.len() && stop[index as int] == c {
        index + 1
    } else {
        0
    }
}

/// Whether matching `stop` from `index` over `text` reaches its end.
pub open spec fn found_in(stop: Seq<char>, index: nat, text: Seq<char>) -> bool
    decreases text.len(),
{
    if text.len() == 0 {
        false
    } else {
        let next = advance(stop, index, text[0]);
        next == stop.len() || found_in(stop, next, text.drop_first())
    }
}

/// Matching state after `text` from `index`, when the end of `stop` is not reached.
pub open spec fn index_after(stop: Seq<char>, index: nat, text: Seq<char>) -> nat
    decreases text.len(),
{
    if text.len() == 0 {
        index
    } else {
        index_after(stop, advance(stop, index, text[0]), text.drop_first())
    }
}

impl StopToken {
    pub closed spec fn text(&self) -> Seq<char> {
        self.0@
    }

    /// A stop token for a non-empty text.
    pub fn new(text: String) -> (r: StopToken)
        requires
            text@.len() > 0,
        ensures
            r.text() == text@,
    {
        StopToken(text)
    }

    /// An inspector that matches this token from its start.
    pub fn inspect(&self) -> (r: StopTokenInspector<'_>)
        requires
            self.text().len() > 0,
        ensures
            r.stop_text() == self.text(),
            r.index_spec() == 0,
    {
        StopTokenInspector::new(self)
    }

    /// Matches `text` from `*index`, and leaves in `*index` where the match stands.
    fn check_from(&self, index: &mut usize, text: &str) -> (r: StopTokenState)
        requires
            self.text().len() > 0,
            *old(index) < self.text().len(),
        ensures
            (r == StopTokenState::Found) == found_in(self.text(), *old(index) as nat, text@),
            r == StopTokenState::Found ==> *final(index) == self.text().len(),
            r != StopTokenState::Found ==> r == StopTokenState::InProgress && *final(index) as nat
                == index_after(self.text(), *old(index) as nat, text@) && *final(index) < self.text().len(),
    {
        let ghost stop = self.text();
        let ghost t = text@;
        let n = self.0.as_str().unicode_len();
        let m = text.unicode_len();
        let mut i: usize = 0;
        assert(t.subrange(0, m as int) =~= t);
        while i < m
            invariant
                n == stop.len(),
                m == t.len(),
                stop == self.text(),
                t == text@,
                i <= m,
                *index < n,
                found_in(stop, *old(index) as nat, t) == found_in(stop, *index as nat, t.subrange(i as int, m as int)),
                index_after(stop, *old(index) as nat, t) == index_after(stop, *index as nat, t.subrange(i as int, m as int)),
            decreases m - i,
        {
            let c = text.get_char(i);
            assert(t.subrange(i as int, m as int).drop_first() =~= t.subrange(i + 1, m as int));
            if self.0.as_str().get_char(*index) != c {
                *index = 0;
            } else {
                *index = *index + 1;
                if *index == n {
                    return StopTokenState::Found;
                }
            }
            i += 1;
        }
        assert(t.subrange(m as int, m as int) =~= Seq::<char>::empty());
        StopTokenState::InProgress
    }
}

/// Matches a stop token against text that arrives in pieces.
pub struct StopTokenInspector<'a> {
    stop: &'a StopToken,
    index: usize,
}

impl<'a> StopTokenInspector<'a> {
    pub closed spec fn stop_text(&self) -> Seq<char> {
        self.stop.text()
    }

    /// How many characters of the token are matched.
    pub closed spec fn index_spec(&self) -> nat {
        self.index as nat
    }

    pub fn new(stop: &'a StopToken) -> (r: StopTokenInspector<'a>)
        ensures
            r.stop_text() == stop.text(),
            r.index_spec() == 0,
    {
        StopTokenInspector { stop, index: 0 }
    }

    /// Starts matching from the token's start again.
    pub fn reset(&mut self)
        ensures
            final(self).stop_text() == old(self).stop_text(),
            final(self).index_spec() == 0,
    {
        self.index = 0;
    }

    /// Matches the next piece of text. `Found` when the token's last character
    /// is matched; the inspector must then be reset before it checks again.
    pub fn check(&mut self, text: &str) -> (r: StopTokenState)
        requires
            old(self).index_spec() < old(self).stop_text().len(),
        ensures
            final(self).stop_text() == old(self).stop_text(),
            (r == StopTokenState::Found) == found_in(old(self).stop_text(), old(self).index_spec(), text@),
            r == StopTokenState::Found ==> final(self).index_spec() == old(self).stop_text().len(),
            r != StopTokenState::Found ==> r == StopTokenState::InProgress && final(self).index_spec()
                == index_after(old(self).stop_text(), old(self).index_spec(), text@)
                && final(self).index_spec() < final(self).stop_text().len(),
    {
        let mut index = self.index;
        let r = self.stop.check_from(&mut index, text);
        self.index = index;
        r
    }
}

/// Watches generated text for any of several stop tokens.
pub struct StopManager {
    stops: Vec<StopToken>,
    indices: Vec<usize>,
}

impl StopManager {
    /// The stop texts, in the order they were added.
    pub closed spec fn texts(&self) -> Seq<Seq<char>> {
        self.stops@.map_values(|s: StopToken| s.text())
    }

    /// How far each stop text is matched.
    pub closed spec fn indices(&self) -> Seq<nat> {
        self.indices@.map_values(|i: usize| i as nat)
    }

    pub closed spec fn wf(&self) -> bool {
        &&& self.stops@.len() == self.indices@.len()
        &&& forall|i: int|
            0 <= i < self.stops@.len() ==> 0 < (#[trigger] self.stops@[i]).text().len() && self.indices@[i]
                < self.stops@[i].text().len()
    }

    pub fn new() -> (r: StopManager)
        ensures
            r.wf(),
            r.texts() == Seq::<Seq<char>>::empty(),
            r.indices() == Seq::<nat>::empty(),
    {
        let r = StopManager { stops: Vec::new(), indices: Vec::new() };
        assert(r.texts() =~= Seq::<Seq<char>>::empty());
        assert(r.indices() =~= Seq::<nat>::empty());
        r
    }

    /// Adds a stop token, matched from its start.
    pub fn add_stop(&mut self, stop: StopToken)
        requires
            old(self).wf(),
            stop.text().len() > 0,
        ensures
            final(self).wf(),
            final(self).texts() == old(self).texts().push(stop.text()),
            final(self).indices() == old(self).indices().push(0),
    {
        let ghost t = stop.text();
        self.stops.push(stop);
        self.indices.push(0);
        assert(self.texts() =~= old(self).texts().push(t));
        assert(self.indices() =~= old(self).indices().push(0));
        assert forall|i: int| 0 <= i < self.stops@.len() implies 0 < (#[trigger] self.stops@[i]).text().len()
            && self.indices@[i] < self.stops@[i].text().len() by {
            if i < old(self).stops@.len() {
                assert(self.stops@[i] == old(self).stops@[i]);
            }
        }
    }

    /// Adds a stop text, matched from its start.
    pub fn add_stop_from_string(&mut self, stop: &str)
        requires
            old(self).wf(),
            stop@.len() > 0,
        ensures
            final(self).wf(),
            final(self).texts() == old(self).texts().push(stop@),
            final(self).indices() == old(self).indices().push(0),
    {
        self.add_stop(StopToken::new(String::from_str(stop)));
    }

    /// Matches the next piece of generated text against every stop token, in
    /// order. True as soon as one is complete; every match then starts over.
    pub fn check(&mut self, text: &str) -> (r: bool)
        requires
            old(self).wf(),
        ensures
            final(self).wf(),
            final(self).texts() == old(self).texts(),
            final(self).indices().len() == old(self).indices().len(),
            r == exists|i: int|
                0 <= i < old(self).texts().len() && found_in(
                    #[trigger] old(self).texts()[i],
                    old(self).indices()[i],
                    text@,
                ),
            r ==> forall|i: int| 0 <= i < final(self).indices().len() ==> #[trigger] final(self).indices()[i] == 0,
            !r ==> forall|i: int|
                0 <= i < final(self).indices().len() ==> #[trigger] final(self).indices()[i] == index_after(
                    old(self).texts()[i],
                    old(self).indices()[i],
                    text@,
                ),
    {
        let n = self.stops.len();
        let mut k: usize = 0;
        while k < n
            invariant
                n == self.stops@.len(),
                k <= n,
                self.wf(),
                self.stops == old(self).stops,
                self.indices@.len() == n,
                self.indices().len() == n,
                old(self).indices().len() == n,
                old(self).texts().len() == n,
                forall|i: int| 0 <= i < k ==> !found_in(#[trigger] old(self).texts()[i], old(self).indices()[i], text@),
                forall|i: int|
                    0 <= i < k ==> #[trigger] self.indices()[i] == index_after(
                        old(self).texts()[i],
                        old(self).indices()[i],
                        text@,
                    ),
                forall|i: int| k <= i < n ==> #[trigger] self.indices()[i] == old(self).indices()[i],
            decreases n - k,
        {
            let mut index = self.indices[k];
            let state = self.stops[k].check_from(&mut index, text);
            assert(old(self).texts()[k as int] == self.stops@[k as int].text());
            assert(old(self).indices()[k as int] == self.indices()[k as int]);
            if state == StopTokenState::Found {
                assert(self.indices().len() == old(self).indices().len());
                self.reset();
                return true;
            }
            let ghost before = self.indices();
            self.indices.set(k, index);
            assert(self.indices() =~= before.update(k as int, index as nat));
            assert forall|i: int| 0 <= i < self.stops@.len() implies 0 < (#[trigger] self.stops@[i]).text().len()
                && self.indices@[i] < self.stops@[i].text().len() by {}
            assert forall|i: int| k < i < n implies #[trigger] self.indices()[i] == old(self).indices()[i] by {}
            k += 1;
        }
        assert forall|i: int| 0 <= i < old(self).texts().len() implies !found_in(
            #[trigger] old(self).texts()[i], old(self).indices()[i], text@) by {}
        false
    }

    /// Starts every match over.
    pub fn reset(&mut self)
        requires
            old(self).wf(),
        ensures
            final(self).wf(),
            final(self).texts() == old(self).texts(),
            final(self).indices().len() == old(self).indices().len(),
            forall|i: int| 0 <= i < final(self).indices().len() ==> #[trigger] final(self).indices()[i] == 0,
    {
        let n = self.indices.len();
        let mut k: usize = 0;
        while k < n
            invariant
                n == self.indices@.len(),
                k <= n,
                self.wf(),
                self.stops == old(self).stops,
                self.indices().len() == n,
                forall|i: int| 0 <= i < k ==> #[trigger] self.indices()[i] == 0,
            decreases n - k,
        {
            let ghost before = self.indices();
            self.indices.set(k, 0);
            assert(self.indices() =~= before.update(k as int, 0));
            assert forall|i: int| 0 <= i < self.stops@.len() implies 0 < (#[trigger] self.stops@[i]).text().len()
                && self.indices@[i] < self.stops@[i].text().len() by {}
            k += 1;
        }
    }
}

} // verus!
