use vstd::prelude::*;

verus! {

/// The contents of a write log: later writes shadow earlier ones.
pub open spec fn log_view(log: Seq<(Seq<u8>, Seq<u8>)>) -> Map<Seq<u8>, Seq<u8>>
    decreases log.len(),
{
    if log.len() == 0 {
        Map::empty()
    } else {
        log_view(log.drop_last()).insert(log.last().0, log.last().1)
    }
}

/// Entries at or after `i` do not touch `key`, so the prefix up to `i` decides it.
proof fn lemma_log_suffix_misses(log: Seq<(Seq<u8>, Seq<u8>)>, i: int, key: Seq<u8>)
    requires
        0 <= i <= log.len(),
        forall|j: int| i <= j < log.len() ==> log[j].0 != key,
    ensures
        log_view(log).contains_key(key) == log_view(log.take(i)).contains_key(key),
        log_view(log).contains_key(key) ==> log_view(log)[key] == log_view(log.take(i))[key],
    decreases log.len() - i,
{
    if i < log.len() {
        let shorter = log.drop_last();
        assert(shorter.take(i) =~= log.take(i));
        lemma_log_suffix_misses(shorter, i, key);
    } else {
        assert(log.take(i) =~= log);
    }
}

/// An in-memory key/value store of byte strings that keeps every write in order.
///
/// The log is also the journal of what a call changed: a host store applies
/// the entries after a mark in order to persist them.
pub struct Store {
    log: Vec<(Vec<u8>, Vec<u8>)>,
}

impl View for Store {
    type V = Map<Seq<u8>, Seq<u8>>;

    /// What the store holds: each key with the value last written under it.
    closed spec fn view(&self) -> Map<Seq<u8>, Seq<u8>> {
        log_view(self.log_seq())
    }
}

impl Store {
    /// The log with each entry seen as its bytes.
    pub closed spec fn log_seq(&self) -> Seq<(Seq<u8>, Seq<u8>)> {
        self.log@.map_values(|e: (Vec<u8>, Vec<u8>)| (e.0@, e.1@))
    }

    /// Number of writes recorded so far.
    pub closed spec fn spec_log_len(&self) -> nat {
        self.log@.len()
    }

    /// An empty store.
    pub fn new() -> (r: Store)
        ensures
            r@ == Map::<Seq<u8>, Seq<u8>>::empty(),
            r.spec_log_len() == 0,
    {
        let r = Store { log: Vec::new() };
        assert(r.log_seq() =~= Seq::<(Seq<u8>, Seq<u8>)>::empty());
        r
    }

    /// The value under `key`, if any.
    pub fn read(&self, key: &Vec<u8>) -> (r: Option<Vec<u8>>)
        ensures
            r.is_some() == self@.contains_key(key@),
            r.is_some() ==> r.unwrap()@ == self@[key@],
    {
        let ghost ls = self.log_seq();
        let mut i: usize = self.log.len();
        while i > 0
            invariant
                i <= self.log@.len(),
                ls == self.log_seq(),
                ls.len() == self.log@.len(),
                forall|j: int| i <= j < ls.len() ==> ls[j].0 != key@,
            decreases i,
        {
            let k = i - 1;
            if bytes_eq(&self.log[k].0, key) {
                proof {
                    lemma_log_suffix_misses(ls, i as int, key@);
                    assert(ls.take(i as int).drop_last() =~= ls.take(k as int));
                }
                return Some(self.log[k].1.clone());
            }
            i = k;
        }
        proof {
            lemma_log_suffix_misses(ls, 0, key@);
            assert(ls.take(0) =~= Seq::<(Seq<u8>, Seq<u8>)>::empty());
        }
        None
    }

    /// Stores `value` under `key`, replacing what was there.
    pub fn write(&mut self, key: Vec<u8>, value: Vec<u8>)
        ensures
            final(self)@ == old(self)@.insert(key@, value@),
            final(self).spec_log_len() == old(self).spec_log_len() + 1,
    {
        let ghost before = self.log_seq();
        let ghost k = key@;
        let ghost v = value@;
        self.log.push((key, value));
        assert(self.log_seq().drop_last() =~= before);
        assert(self.log_seq().last() == (k, v));
    }

    /// Number of writes recorded so far.
    pub fn log_len(&self) -> (r: usize)
        ensures
            r == self.spec_log_len(),
    {
        self.log.len()
    }

    /// The `i`-th recorded write, as key and value.
    pub fn log_entry(&self, i: usize) -> (r: (Vec<u8>, Vec<u8>))
        requires
            i < self.spec_log_len(),
        ensures
            r.0@ == self.log_seq()[i as int].0,
            r.1@ == self.log_seq()[i as int].1,
    {
        (self.log[i].0.clone(), self.log[i].1.clone())
    }
}

/// Whether two byte strings are equal.
pub fn bytes_eq(a: &Vec<u8>, b: &Vec<u8>) -> (r: bool)
    ensures
        r == (a@ == b@),
{
    if a.len() != b.len() {
        return false;
    }
    let mut i: usize = 0;
    while i < a.len()
        invariant
            i <= a@.len(),
            a@.len() == b@.len(),
            forall|j: int| 0 <= j < i ==> a@[j] == b@[j],
        decreases a@.len() - i,
    {
        if a[i] != b[i] {
            return false;
        }
        i = i + 1;
    }
    assert(a@ =~= b@);
    true
}

} // verus!
