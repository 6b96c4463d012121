use vstd::prelude::*;

verus! {

/// An opaque display colour, as red, green, blue and alpha components.
#[derive(Clone, Copy, Debug, PartialEq, Eq, Structural)]
pub struct Color {
    pub r: u8,
    pub g: u8,
    pub b: u8,
    pub a: u8,
}

/// A named time series: its samples, its colour and whether it is shown.
pub struct Channel<T> {
    pub values: Vec<T>,
    pub color: Color,
    pub show: bool,
}

/// What a registry entry is: identifier, samples, colour, visibility.
pub type EntryView<T> = (Seq<char>, Seq<T>, Color, bool);

impl<T> Channel<T> {
    /// An empty, visible channel of the given colour.
    pub fn new(color: Color) -> (r: Self)
        ensures
            r.values@ == Seq::<T>::empty(),
            r.color == color,
            r.show,
    {
        Channel { values: Vec::new(), color, show: true }
    }
}

pub open spec fn entry_view<T>(e: (String, Channel<T>)) -> EntryView<T> {
    (e.0@, e.1.values@, e.1.color, e.1.show)
}

/// Length of a generated channel identifier.
pub const IDENTIFIER_LEN: usize = 16;

/// How many fresh identifiers `create` draws before it gives up.
pub const CREATE_ATTEMPTS: usize = 8;

/// An ASCII letter or digit.
pub open spec fn is_alphanumeric(c: char) -> bool {
    ('a' <= c && c <= 'z') || ('A' <= c && c <= 'Z') || ('0' <= c && c <= '9')
}

/// Relies on rand's `thread_rng` sampled through `distributions::Alphanumeric`:
/// `len` characters, each drawn from the ASCII letters and digits.
#[verifier::external_body]
fn random_identifier(len: usize) -> (r: String)
    ensures
        r@.len() == len,
        forall|i: int| 0 <= i < r@.len() ==> is_alphanumeric(#[trigger] r@[i]),
{
    rand::Rng::sample_iter(rand::thread_rng(), &rand::distributions::Alphanumeric).take(
        len,
    ).map(char::from).collect()
}

/// The mapping from channel identifier to channel, with unique identifiers.
pub struct Registry<T> {
    entries: Vec<(String, Channel<T>)>,
}

impl<T> View for Registry<T> {
    type V = Seq<EntryView<T>>;

    closed spec fn view(&self) -> Seq<EntryView<T>> {
        self.entries@.map_values(|e: (String, Channel<T>)| entry_view(e))
    }
}

/// No two entries of `s` carry the same identifier.
pub open spec fn keys_unique<T>(s: Seq<EntryView<T>>) -> bool {
    forall|i: int, j: int| 0 <= i < j < s.len() ==> s[i].0 != s[j].0
}

/// Whether `s` holds an entry for identifier `k`.
pub open spec fn has_key<T>(s: Seq<EntryView<T>>, k: Seq<char>) -> bool {
    exists|i: int| 0 <= i < s.len() && s[i].0 == k
}

/// The index of the entry for `k` in `s` (meaningful when `has_key(s, k)`).
pub open spec fn position<T>(s: Seq<EntryView<T>>, k: Seq<char>) -> int {
    choose|i: int| 0 <= i < s.len() && s[i].0 == k
}

/// `s` after appending `v` to the channel named `k`, if there is one.
pub open spec fn append_spec<T>(s: Seq<EntryView<T>>, k: Seq<char>, v: T) -> Seq<EntryView<T>> {
    if has_key(s, k) {
        let i = position(s, k);
        let e = s[i];
        s.update(i, (e.0, e.1.push(v), e.2, e.3))
    } else {
        s
    }
}

/// The entries of `s` that are shown, in registry order.
pub open spec fn visible_of<T>(s: Seq<EntryView<T>>) -> Seq<EntryView<T>> {
    s.filter(|e: EntryView<T>| e.3)
}

impl<T> Registry<T> {
    pub open spec fn wf(&self) -> bool {
        keys_unique(self@)
    }

    pub open spec fn contains_spec(&self, k: Seq<char>) -> bool {
        has_key(self@, k)
    }

    /// An empty registry.
    pub fn new() -> (r: Self)
        ensures
            r.wf(),
            r@ == Seq::<EntryView<T>>::empty(),
    {
        let r = Registry { entries: Vec::new() };
        assert(r@ =~= Seq::<EntryView<T>>::empty());
        r
    }

    /// The number of channels.
    pub fn len(&self) -> (r: usize)
        ensures
            r == self@.len(),
    {
        self.entries.len()
    }

    /// The index of the channel named `id`, if there is one.
    pub fn find(&self, id: &String) -> (r: Option<usize>)
        requires
            self.wf(),
        ensures
            r matches Some(i) ==> i < self@.len() && self@[i as int].0 == id@ && i == position(
                self@,
                id@,
            ),
            r is None <==> !has_key(self@, id@),
    {
        let mut i: usize = 0;
        while i < self.entries.len()
            invariant
                i <= self.entries@.len(),
                self@.len() == self.entries@.len(),
                self.wf(),
                forall|j: int| 0 <= j < i ==> self@[j].0 != id@,
            decreases self.entries@.len() - i,
        {
            if self.entries[i].0 == *id {
                assert(self@[i as int].0 == id@);
                let ghost p = position(self@, id@);
                assert(0 <= p < self@.len() && self@[p].0 == id@);
                assert(p == i as int);
                return Some(i);
            }
            i = i + 1;
        }
        None
    }

    /// Inserts `id` with an empty, visible channel of `color`, unless `id`
    /// is taken; says whether it inserted.
    pub fn create_with(&mut self, id: String, color: Color) -> (r: bool)
        requires
            old(self).wf(),
        ensures
            final(self).wf(),
            r == !has_key(old(self)@, id@),
            r ==> final(self)@ == old(self)@.push((id@, Seq::<T>::empty(), color, true)),
            !r ==> final(self)@ == old(self)@,
    {
        if self.contains(&id) {
            return false;
        }
        let ghost k = id@;
        let ghost before = self@;
        self.entries.push((id, Channel::new(color)));
        assert(self@ =~= before.push((k, Seq::<T>::empty(), color, true)));
        assert forall|i: int, j: int| 0 <= i < j < self@.len() implies self@[i].0 != self@[j].0 by {
            if j == before.len() {
                assert(before[i].0 != k);
            }
        }
        true
    }

    /// Creates an empty, visible channel of `color` under a freshly drawn
    /// random identifier and returns that identifier. A drawn identifier that
    /// is already taken is drawn again; `None`, with the registry unchanged,
    /// only when every attempt collided.
    pub fn create(&mut self, color: Color) -> (r: Option<String>)
        requires
            old(self).wf(),
        ensures
            final(self).wf(),
            r matches Some(id) ==> {
                &&& !has_key(old(self)@, id@)
                &&& final(self)@ == old(self)@.push((id@, Seq::<T>::empty(), color, true))
                &&& id@.len() == IDENTIFIER_LEN
                &&& forall|i: int| 0 <= i < id@.len() ==> is_alphanumeric(#[trigger] id@[i])
            },
            r is None ==> final(self)@ == old(self)@,
            (forall|i: int|
                0 <= i < old(self)@.len() ==> (#[trigger] old(self)@[i]).0.len() != IDENTIFIER_LEN)
                ==> r is Some,
    {
        let mut attempt: usize = 0;
        while attempt < CREATE_ATTEMPTS
            invariant
                self.wf(),
                self@ == old(self)@,
                (forall|i: int|
                    0 <= i < old(self)@.len() ==> (#[trigger] old(self)@[i]).0.len()
                        != IDENTIFIER_LEN) ==> attempt == 0,
            decreases CREATE_ATTEMPTS - attempt,
        {
            let id = random_identifier(IDENTIFIER_LEN);
            let kept = id.clone();
            if self.create_with(id, color) {
                return Some(kept);
            }
            attempt = attempt + 1;
        }
        None
    }

    /// Appends `value` to the channel named `id`; an unknown `id` leaves the
    /// registry as it is.
    pub fn append(&mut self, id: &String, value: T)
        requires
            old(self).wf(),
        ensures
            final(self).wf(),
            has_key(old(self)@, id@) ==> {
                let i = position(old(self)@, id@);
                let e = old(self)@[i];
                final(self)@ == old(self)@.update(i, (e.0, e.1.push(value), e.2, e.3))
            },
            !has_key(old(self)@, id@) ==> final(self)@ == old(self)@,
            final(self)@ == append_spec(old(self)@, id@, value),
    {
        match self.find(id) {
            Some(i) => {
                let ghost before = self@;
                self.entries[i].1.values.push(value);
                let ghost e = before[i as int];
                assert(self@ =~= before.update(i as int, (e.0, e.1.push(value), e.2, e.3)));
                assert forall|a: int, b: int| 0 <= a < b < self@.len() implies self@[a].0
                    != self@[b].0 by {
                    assert(before[a].0 != before[b].0);
                }
            },
            None => {},
        }
    }

    /// Empties the samples of the channel named `id`, which stays in place;
    /// an unknown `id` leaves the registry as it is.
    pub fn clear(&mut self, id: &String)
        requires
            old(self).wf(),
        ensures
            final(self).wf(),
            has_key(old(self)@, id@) ==> {
                let i = position(old(self)@, id@);
                let e = old(self)@[i];
                final(self)@ == old(self)@.update(i, (e.0, Seq::<T>::empty(), e.2, e.3))
            },
            !has_key(old(self)@, id@) ==> final(self)@ == old(self)@,
    {
        match self.find(id) {
            Some(i) => {
                let ghost before = self@;
                self.entries[i].1.values = Vec::new();
                let ghost e = before[i as int];
                assert(self@ =~= before.update(i as int, (e.0, Seq::<T>::empty(), e.2, e.3)));
                assert forall|a: int, b: int| 0 <= a < b < self@.len() implies self@[a].0
                    != self@[b].0 by {
                    assert(before[a].0 != before[b].0);
                }
            },
            None => {},
        }
    }

    /// Shows or hides the channel named `id`; an unknown `id` leaves the
    /// registry as it is.
    pub fn set_visible(&mut self, id: &String, show: bool)
        requires
            old(self).wf(),
        ensures
            final(self).wf(),
            has_key(old(self)@, id@) ==> {
                let i = position(old(self)@, id@);
                let e = old(self)@[i];
                final(self)@ == old(self)@.update(i, (e.0, e.1, e.2, show))
            },
            !has_key(old(self)@, id@) ==> final(self)@ == old(self)@,
    {
        match self.find(id) {
            Some(i) => {
                let ghost before = self@;
                self.entries[i].1.show = show;
                let ghost e = before[i as int];
                assert(self@ =~= before.update(i as int, (e.0, e.1, e.2, show)));
                assert forall|a: int, b: int| 0 <= a < b < self@.len() implies self@[a].0
                    != self@[b].0 by {
                    assert(before[a].0 != before[b].0);
                }
            },
            None => {},
        }
    }

    /// Recolours the channel named `id`; an unknown `id` leaves the registry
    /// as it is.
    pub fn set_color(&mut self, id: &String, color: Color)
        requires
            old(self).wf(),
        ensures
            final(self).wf(),
            has_key(old(self)@, id@) ==> {
                let i = position(old(self)@, id@);
                let e = old(self)@[i];
                final(self)@ == old(self)@.update(i, (e.0, e.1, color, e.3))
            },
            !has_key(old(self)@, id@) ==> final(self)@ == old(self)@,
    {
        match self.find(id) {
            Some(i) => {
                let ghost before = self@;
                self.entries[i].1.color = color;
                let ghost e = before[i as int];
                assert(self@ =~= before.update(i as int, (e.0, e.1, color, e.3)));
                assert forall|a: int, b: int| 0 <= a < b < self@.len() implies self@[a].0
                    != self@[b].0 by {
                    assert(before[a].0 != before[b].0);
                }
            },
            None => {},
        }
    }

    /// Deletes the channel named `id`; an unknown `id` leaves the registry as
    /// it is.
    pub fn remove(&mut self, id: &String)
        requires
            old(self).wf(),
        ensures
            final(self).wf(),
            has_key(old(self)@, id@) ==> final(self)@ == old(self)@.remove(
                position(old(self)@, id@),
            ),
            !has_key(old(self)@, id@) ==> final(self)@ == old(self)@,
            !has_key(final(self)@, id@),
    {
        match self.find(id) {
            Some(i) => {
                let ghost before = self@;
                self.entries.remove(i);
                assert(self@ =~= before.remove(i as int));
                assert forall|a: int, b: int| 0 <= a < b < self@.len() implies self@[a].0
                    != self@[b].0 by {
                    let a2 = if a < i { a } else { a + 1 };
                    let b2 = if b < i { b } else { b + 1 };
                    assert(before[a2].0 != before[b2].0);
                }
                assert forall|j: int| 0 <= j < self@.len() implies self@[j].0 != id@ by {
                    let j2 = if j < i { j } else { j + 1 };
                    assert(before[j2].0 != before[i as int].0);
                }
            },
            None => {},
        }
    }

    /// The shown channels, in registry order, as references to their
    /// identifiers and channels.
    pub fn iter_visible(&self) -> (r: Vec<(&String, &Channel<T>)>)
        ensures
            r@.map_values(|p: (&String, &Channel<T>)| (p.0@, p.1.values@, p.1.color, p.1.show))
                == visible_of(self@),
    {
        let mut r: Vec<(&String, &Channel<T>)> = Vec::new();
        let mut i: usize = 0;
        while i < self.entries.len()
            invariant
                i <= self.entries@.len(),
                self@.len() == self.entries@.len(),
                r@.map_values(|p: (&String, &Channel<T>)| (p.0@, p.1.values@, p.1.color, p.1.show))
                    == visible_of(self@.take(i as int)),
            decreases self.entries@.len() - i,
        {
            let ghost prev = self@.take(i as int);
            assert(self@.take(i + 1) =~= prev.push(self@[i as int]));
            reveal(Seq::filter);
            assert(visible_of(prev.push(self@[i as int])) == if self@[i as int].3 {
                visible_of(prev).push(self@[i as int])
            } else {
                visible_of(prev)
            }) by {
                assert(prev.push(self@[i as int]).drop_last() =~= prev);
            }
            let e = &self.entries[i];
            if e.1.show {
                let ghost rv = r@;
                r.push((&e.0, &e.1));
                assert(r@.map_values(|p: (&String, &Channel<T>)| (p.0@, p.1.values@, p.1.color, p.1.show))
                    =~= rv.map_values(|p: (&String, &Channel<T>)| (p.0@, p.1.values@, p.1.color, p.1.show)).push(self@[i as int]));
            }
            i = i + 1;
        }
        assert(self@.take(self@.len() as int) =~= self@);
        r
    }

    /// The channel named `id`, if there is one.
    pub fn get(&self, id: &String) -> (r: Option<&Channel<T>>)
        requires
            self.wf(),
        ensures
            r is None <==> !has_key(self@, id@),
            r matches Some(c) ==> ({
                let e = self@[position(self@, id@)];
                c.values@ == e.1 && c.color == e.2 && c.show == e.3
            }),
    {
        match self.find(id) {
            Some(i) => Some(&self.entries[i].1),
            None => None,
        }
    }

    /// Whether a channel named `id` exists.
    pub fn contains(&self, id: &String) -> (r: bool)
        requires
            self.wf(),
        ensures
            r == has_key(self@, id@),
    {
        self.find(id).is_some()
    }
}

/// The registry after each of a run of successful creations: each step
/// appended an entry for an identifier absent from the registry before it.
pub open spec fn creation_run<T>(
    states: Seq<Seq<EntryView<T>>>,
    ids: Seq<Seq<char>>,
    colors: Seq<Color>,
) -> bool {
    &&& states.len() == ids.len() + 1
    &&& colors.len() == ids.len()
    &&& forall|i: int|
        0 <= i < ids.len() ==> {
            &&& !has_key(#[trigger] states[i], ids[i])
            &&& states[i + 1] == states[i].push((ids[i], Seq::<T>::empty(), colors[i], true))
        }
}

proof fn lemma_created_key_kept<T>(
    states: Seq<Seq<EntryView<T>>>,
    ids: Seq<Seq<char>>,
    colors: Seq<Color>,
    i: int,
    j: int,
)
    requires
        creation_run(states, ids, colors),
        0 <= i < j <= ids.len(),
    ensures
        has_key(states[j], ids[i]),
    decreases j - i,
{
    if j == i + 1 {
        let s = states[i];
        assert(states[i + 1][s.len() as int].0 == ids[i]);
    } else {
        lemma_created_key_kept(states, ids, colors, i, j - 1);
        let s = states[j - 1];
        let k = choose|x: int| 0 <= x < s.len() && s[x].0 == ids[i];
        assert(states[j - 1 + 1][k].0 == ids[i]);
    }
}

/// Identifiers handed out by a run of creations are pairwise distinct.
pub proof fn lemma_created_identifiers_distinct<T>(
    states: Seq<Seq<EntryView<T>>>,
    ids: Seq<Seq<char>>,
    colors: Seq<Color>,
)
    requires
        creation_run(states, ids, colors),
    ensures
        forall|i: int, j: int| 0 <= i < j < ids.len() ==> ids[i] != ids[j],
{
    assert forall|i: int, j: int| 0 <= i < j < ids.len() implies ids[i] != ids[j] by {
        lemma_created_key_kept(states, ids, colors, i, j);
        assert(!has_key(states[j], ids[j]));
    }
}

/// Clearing a channel empties its samples and keeps it: the identifier is
/// still found, and the entry found under it has no samples.
pub proof fn lemma_clear_keeps_channel<T>(s: Seq<EntryView<T>>, k: Seq<char>)
    requires
        keys_unique(s),
        has_key(s, k),
    ensures
        ({
            let i = position(s, k);
            let e = s[i];
            let after = s.update(i, (e.0, Seq::<T>::empty(), e.2, e.3));
            &&& has_key(after, k)
            &&& after[position(after, k)].1 == Seq::<T>::empty()
            &&& after.len() == s.len()
        }),
{
    let i = position(s, k);
    let e = s[i];
    let after = s.update(i, (e.0, Seq::<T>::empty(), e.2, e.3));
    assert(after[i].0 == k);
    let p = position(after, k);
    if p != i {
        assert(s[p].0 == k);
    }
}

/// Every channel listed as visible is shown.
pub proof fn lemma_visible_are_shown<T>(s: Seq<EntryView<T>>)
    ensures
        forall|i: int| 0 <= i < visible_of(s).len() ==> (#[trigger] visible_of(s)[i]).3,
{
    broadcast use vstd::seq_lib::group_filter_ensures;

    assert forall|i: int| 0 <= i < visible_of(s).len() implies (#[trigger] visible_of(s)[i]).3 by {
        assert(s.filter(|e: EntryView<T>| e.3).contains(visible_of(s)[i]));
    }
}

} // verus!
