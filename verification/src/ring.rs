//! Delay lines: what a string, a comb or a lookahead keeps of its past.

use vstd::prelude::*;

verus! {

/// A line of the last values written to it, as many as it is long.
#[derive(Clone, Debug)]
pub struct Ring<T> {
    buf: Vec<T>,
    pos: usize,
}

impl<T> View for Ring<T> {
    type V = Seq<T>;

    /// The values, the newest first.
    closed spec fn view(&self) -> Seq<T> {
        Seq::new(
            self.buf@.len(),
            |k: int|
                if k < self.pos {
                    self.buf@[self.pos - 1 - k]
                } else {
                    self.buf@[self.buf@.len() + self.pos - 1 - k]
                },
        )
    }
}

impl<T: Copy> Ring<T> {
    pub closed spec fn wf(self) -> bool {
        &&& 0 < self.buf.len()
        &&& self.pos < self.buf.len()
    }

    /// Where the next value goes.
    pub closed spec fn spot(self) -> int {
        self.pos as int
    }

    /// A line's length is a count.
    pub proof fn lemma_len(self)
        ensures
            self@.len() <= usize::MAX,
    {
        assert(self.buf.len() <= usize::MAX);
    }

    /// A line of `len` values, all the same.
    pub fn new(len: usize, value: T) -> (r: Ring<T>)
        requires
            0 < len,
        ensures
            r.wf(),
            r@ == Seq::new(len as nat, |k: int| value),
            r.spot() == 0,
    {
        let mut buf: Vec<T> = Vec::new();
        let mut i: usize = 0;
        while i < len
            invariant
                i <= len,
                buf.len() == i,
                forall|j: int| 0 <= j < i ==> #[trigger] buf@[j] == value,
            decreases len - i,
        {
            buf.push(value);
            i = i + 1;
        }
        let r = Ring { buf, pos: 0 };
        assert(r@ =~= Seq::new(len as nat, |k: int| value));
        r
    }

    /// How many values the line keeps.
    pub fn len(&self) -> (r: usize)
        ensures
            r == self@.len(),
    {
        self.buf.len()
    }

    /// Where the next value goes.
    pub fn pos(&self) -> (r: usize)
        ensures
            r == self.spot(),
    {
        self.pos
    }

    /// The value written `age` writes ago, the newest being one write old.
    pub fn behind(&self, age: usize) -> (r: T)
        requires
            self.wf(),
            1 <= age <= self@.len(),
        ensures
            r == self@[age - 1],
    {
        if age <= self.pos {
            self.buf[self.pos - age]
        } else {
            self.buf[self.buf.len() - age + self.pos]
        }
    }

    /// The value written `age` writes ago and the one before it: what a read
    /// between two samples lies between.
    pub fn pair(&self, age: usize) -> (r: (T, T))
        requires
            self.wf(),
            1 <= age < self@.len(),
        ensures
            r == between(self@, age as int),
    {
        (self.behind(age), self.behind(age + 1))
    }

    /// The value in slot `i` of the line, counted from its first slot rather
    /// than from the newest value.
    pub fn slot(&self, i: usize) -> (r: T)
        requires
            self.wf(),
            i < self@.len(),
        ensures
            i < self.spot() ==> r == self@[self.spot() - 1 - i],
            i >= self.spot() ==> r == self@[self@.len() + self.spot() - 1 - i],
    {
        self.buf[i]
    }

    /// Write a value: the oldest leaves.
    pub fn write(&mut self, value: T) -> (oldest: T)
        requires
            old(self).wf(),
        ensures
            final(self).wf(),
            oldest == old(self)@.last(),
            final(self)@ == written(old(self)@, value),
            final(self).spot() == (if old(self).spot() + 1 == old(self)@.len() {
                0
            } else {
                old(self).spot() + 1
            }),
    {
        let ghost before = self@;
        let n: usize = self.buf.len();
        let oldest: T = self.buf[self.pos];
        self.buf.set(self.pos, value);
        self.pos = if self.pos + 1 == n {
            0
        } else {
            self.pos + 1
        };
        assert(self@ =~= written(before, value));
        oldest
    }

    /// Fill the line anew: these values, the last of them the newest, and
    /// `rest` before them.
    pub fn prime(&mut self, values: &Vec<T>, rest: T)
        requires
            old(self).wf(),
            values.len() <= old(self)@.len(),
        ensures
            final(self).wf(),
            final(self)@.len() == old(self)@.len(),
            forall|k: int| 0 <= k < values.len() ==> #[trigger] final(self)@[k] == values@[values.len() - 1 - k],
            forall|k: int| values.len() <= k < final(self)@.len() ==> #[trigger] final(self)@[k] == rest,
            final(self).spot() == (if values.len() == old(self)@.len() {
                0
            } else {
                values.len() as int
            }),
    {
        let n: usize = self.buf.len();
        let m: usize = values.len();
        let mut i: usize = 0;
        while i < n
            invariant
                i <= n,
                m == values.len(),
                m <= n,
                self.buf.len() == n,
                forall|j: int| 0 <= j < i ==> #[trigger] self.buf@[j] == (if j < m { values@[j] } else { rest }),
            decreases n - i,
        {
            if i < m {
                self.buf.set(i, values[i]);
            } else {
                self.buf.set(i, rest);
            }
            i = i + 1;
        }
        self.pos = if m == n {
            0
        } else {
            m
        };
        assert forall|k: int| 0 <= k < m implies #[trigger] self@[k] == values@[m - 1 - k] by {}
        assert forall|k: int| m <= k < n implies #[trigger] self@[k] == rest by {}
    }
}

/// A line with one more value written: the newest comes first, and the oldest
/// leaves.
pub open spec fn written<T>(line: Seq<T>, value: T) -> Seq<T> {
    seq![value] + line.drop_last()
}

/// What a read between two samples lies between: the value written `age`
/// writes ago, and the one before it.
pub open spec fn between<T>(line: Seq<T>, age: int) -> (T, T) {
    (line[age - 1], line[age])
}

/// A line after values are written to it in turn.
pub open spec fn after_writes<T>(line: Seq<T>, values: Seq<T>) -> Seq<T>
    decreases values.len(),
{
    if values.len() == 0 {
        line
    } else {
        written(after_writes(line, values.drop_last()), values.last())
    }
}

/// What goes into a line comes out of it again, each value as many writes
/// later as the line is long.
pub proof fn law_a_value_comes_back<T>(line: Seq<T>, values: Seq<T>, k: int)
    requires
        line.len() > 0,
        0 <= k < line.len(),
        k < values.len(),
    ensures
        after_writes(line, values).len() == line.len(),
        after_writes(line, values)[k] == values[values.len() - 1 - k],
    decreases values.len(),
{
    let rest = values.drop_last();
    lemma_same_length(line, rest);
    if k > 0 {
        law_a_value_comes_back(line, rest, k - 1);
    }
}

proof fn lemma_same_length<T>(line: Seq<T>, values: Seq<T>)
    requires
        line.len() > 0,
    ensures
        after_writes(line, values).len() == line.len(),
    decreases values.len(),
{
    if values.len() > 0 {
        lemma_same_length(line, values.drop_last());
    }
}

/// A value just written is the newer of the two read at age one, and a write
/// later everything is read at an age one more.
pub proof fn law_a_value_ages_by_a_write<T>(line: Seq<T>, value: T, age: int)
    requires
        1 < line.len(),
        1 <= age < line.len() - 1,
    ensures
        written(line, value).len() == line.len(),
        between(written(line, value), 1) == (value, line[0]),
        between(written(line, value), age + 1) == between(line, age),
        between(line, age).0 == line[age - 1],
        between(line, age).1 == line[age],
{
}

} // verus!
