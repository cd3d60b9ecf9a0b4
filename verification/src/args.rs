use crate::once::OnceCell;
use vstd::prelude::*;

verus! {

/// The process's argument vector, cached in a [`OnceCell`].
///
/// The producer is handed the argument strings as plain values (the caller
/// reads them from the execution environment); the first call to [`force`]
/// publishes them, and every later call and every accessor observes that one
/// published vector, in its original order, unchanged for the life of the
/// cache.
///
/// [`force`]: Args::force
pub struct Args {
    cache: OnceCell<Vec<String>>,
}

impl Args {
    /// Whether the argument vector has been published yet.
    pub closed spec fn is_ready(&self) -> bool {
        self.cache@ is Ready
    }

    /// The cached argument strings, in their original order.
    pub closed spec fn args(&self) -> Seq<String>
        recommends
            self.is_ready(),
    {
        self.cache@.value()@
    }

    /// The cell respects its protocol and is never left mid-claim.
    pub closed spec fn wf(&self) -> bool {
        &&& self.cache.wf()
        &&& !(self.cache@ is InProgress)
    }

    /// Creates an empty cache, without reading or storing anything yet.
    pub fn new() -> (a: Self)
        ensures
            a.wf(),
            !a.is_ready(),
    {
        Args { cache: OnceCell::new() }
    }

    /// Publishes `argv` as the argument vector if none is published yet, and
    /// returns a reference to the cached vector: the newly published one, or
    /// the one that an earlier call published.
    pub fn force(&mut self, argv: Vec<String>) -> (r: &Vec<String>)
        requires
            old(self).wf(),
        ensures
            final(self).wf(),
            final(self).is_ready(),
            r@ == final(self).args(),
            old(self).is_ready() ==> final(self).args() == old(self).args(),
            !old(self).is_ready() ==> final(self).args() == argv@,
    {
        let produce = move || -> (v: Vec<String>)
            ensures
                v == argv,
            { argv };
        self.cache.get_or_init(produce)
    }

    /// The number of cached argument strings.
    pub fn len(&self) -> (n: usize)
        requires
            self.wf(),
            self.is_ready(),
        ensures
            n == self.args().len(),
    {
        match self.cache.get() {
            Some(v) => v.len(),
            None => unreached(),
        }
    }

    /// Whether the process was started with no arguments at all — unlikely,
    /// since the program's own invocation name normally occupies index 0.
    pub fn is_empty(&self) -> (b: bool)
        requires
            self.wf(),
            self.is_ready(),
        ensures
            b == (self.args().len() == 0),
    {
        self.len() == 0
    }

    /// The argument at `index`, or `None` when `index` is out of range.
    pub fn get(&self, index: usize) -> (r: Option<&String>)
        requires
            self.wf(),
            self.is_ready(),
        ensures
            match r {
                Some(s) => index < self.args().len() && *s == self.args()[index as int],
                None => index >= self.args().len(),
            },
    {
        match self.cache.get() {
            Some(v) => {
                if index < v.len() {
                    Some(&v[index])
                } else {
                    None
                }
            },
            None => unreached(),
        }
    }

    /// The argument at `index`. The caller must stay in range; on an
    /// out-of-range index the original interface ends the process instead.
    pub fn at(&self, index: usize) -> (s: &String)
        requires
            self.wf(),
            self.is_ready(),
            index < self.args().len(),
        ensures
            *s == self.args()[index as int],
    {
        match self.cache.get() {
            Some(v) => &v[index],
            None => unreached(),
        }
    }

    /// A restartable iterator over the cached arguments in original order;
    /// restartable because the underlying data never changes.
    pub fn iter(&self) -> (it: ArgsIter<'_>)
        requires
            self.wf(),
            self.is_ready(),
        ensures
            it.wf(),
            it.remaining() == self.args(),
    {
        match self.cache.get() {
            Some(v) => {
                let it = ArgsIter { items: v, pos: 0, end: v.len() };
                proof {
                    assert(it.remaining() =~= self.args());
                }
                it
            },
            None => unreached(),
        }
    }
}

/// A double-ended cursor over the arguments held by an [`Args`] cache.
pub struct ArgsIter<'a> {
    items: &'a Vec<String>,
    pos: usize,
    end: usize,
}

impl<'a> ArgsIter<'a> {
    /// The cursor bounds stay within the underlying vector.
    pub closed spec fn wf(&self) -> bool {
        self.pos <= self.end <= self.items@.len()
    }

    /// The arguments not yet yielded from either end.
    pub closed spec fn remaining(&self) -> Seq<String> {
        self.items@.subrange(self.pos as int, self.end as int)
    }

    /// Yields the next argument from the front, or `None` when exhausted.
    pub fn next(&mut self) -> (r: Option<&'a String>)
        requires
            old(self).wf(),
        ensures
            final(self).wf(),
            match r {
                Some(s) => old(self).remaining().len() > 0 && *s == old(self).remaining()[0]
                    && final(self).remaining() == old(self).remaining().drop_first(),
                None => old(self).remaining().len() == 0 && *final(self) == *old(self),
            },
    {
        if self.pos < self.end {
            let s = &self.items[self.pos];
            self.pos = self.pos + 1;
            proof {
                assert(self.remaining() =~= old(self).remaining().drop_first());
            }
            Some(s)
        } else {
            None
        }
    }

    /// Yields the next argument from the back, or `None` when exhausted.
    pub fn next_back(&mut self) -> (r: Option<&'a String>)
        requires
            old(self).wf(),
        ensures
            final(self).wf(),
            match r {
                Some(s) => old(self).remaining().len() > 0 && *s == old(self).remaining().last()
                    && final(self).remaining() == old(self).remaining().drop_last(),
                None => old(self).remaining().len() == 0 && *final(self) == *old(self),
            },
    {
        if self.pos < self.end {
            self.end = self.end - 1;
            let s = &self.items[self.end];
            proof {
                assert(self.remaining() =~= old(self).remaining().drop_last());
            }
            Some(s)
        } else {
            None
        }
    }

    /// Skips `n` arguments from the front and yields the one after them.
    pub fn nth(&mut self, n: usize) -> (r: Option<&'a String>)
        requires
            old(self).wf(),
        ensures
            final(self).wf(),
            match r {
                Some(s) => n < old(self).remaining().len() && *s == old(self).remaining()[n as int]
                    && final(self).remaining() == old(self).remaining().skip(n + 1),
                None => n >= old(self).remaining().len() && final(self).remaining().len() == 0,
            },
    {
        if n < self.end - self.pos {
            let s = &self.items[self.pos + n];
            self.pos = self.pos + n + 1;
            proof {
                assert(self.remaining() =~= old(self).remaining().skip(n + 1));
            }
            Some(s)
        } else {
            self.pos = self.end;
            proof {
                assert(self.remaining() =~= Seq::<String>::empty());
            }
            None
        }
    }

    /// Skips `n` arguments from the back and yields the one before them.
    pub fn nth_back(&mut self, n: usize) -> (r: Option<&'a String>)
        requires
            old(self).wf(),
        ensures
            final(self).wf(),
            match r {
                Some(s) => n < old(self).remaining().len() && *s == old(self).remaining()[old(
                    self,
                ).remaining().len() - 1 - n] && final(self).remaining() == old(
                    self,
                ).remaining().take(old(self).remaining().len() - 1 - n),
                None => n >= old(self).remaining().len() && final(self).remaining().len() == 0,
            },
    {
        if n < self.end - self.pos {
            self.end = self.end - 1 - n;
            let s = &self.items[self.end];
            proof {
                assert(self.remaining() =~= old(self).remaining().take(
                    old(self).remaining().len() - 1 - n,
                ));
            }
            Some(s)
        } else {
            self.pos = self.end;
            proof {
                assert(self.remaining() =~= Seq::<String>::empty());
            }
            None
        }
    }

    /// How many arguments are left to yield.
    pub fn len(&self) -> (n: usize)
        requires
            self.wf(),
        ensures
            n == self.remaining().len(),
    {
        self.end - self.pos
    }

    /// The exact bounds on how many arguments are left, both equal to
    /// [`len`](ArgsIter::len).
    pub fn size_hint(&self) -> (r: (usize, Option<usize>))
        requires
            self.wf(),
        ensures
            r.0 == self.remaining().len(),
            r.1 == Some(self.remaining().len() as usize),
    {
        let n = self.end - self.pos;
        (n, Some(n))
    }

    /// Consumes the cursor and reports how many arguments were left.
    pub fn count(self) -> (n: usize)
        requires
            self.wf(),
        ensures
            n == self.remaining().len(),
    {
        self.end - self.pos
    }
}

} // verus!
