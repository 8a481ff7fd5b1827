use vstd::prelude::*;

verus! {

/// One write made through a context: an encoded key and the raw bytes stored
/// under it.
struct Pair {
    key: Vec<u8>,
    value: Vec<u8>,
}

/// The store that a sequence of writes describes, later writes winning.
spec fn store_of(entries: Seq<Pair>) -> Map<Seq<u8>, Seq<u8>>
    decreases entries.len(),
{
    if entries.len() == 0 {
        Map::empty()
    } else {
        store_of(entries.drop_last()).insert(entries.last().key@, entries.last().value@)
    }
}

/// Both stores agree on the entry under one key: present in one exactly when
/// present in the other, and then with the same bytes.
spec fn agrees_at(m1: Map<Seq<u8>, Seq<u8>>, m2: Map<Seq<u8>, Seq<u8>>, k: Seq<u8>) -> bool {
    &&& m1.contains_key(k) == m2.contains_key(k)
    &&& m1.contains_key(k) ==> m1[k] == m2[k]
}

/// A transactional key-value context: the narrow surface the balance map
/// needs from its storage substrate.
///
/// A context scopes raw byte entries to one unit of work.  It is viewed as a
/// map from encoded keys to the bytes last written under them; an absent key
/// is not an error, merely an absent entry.  All writes made through a
/// context live and die with it: dropping the context discards them.
pub struct Context {
    entries: Vec<Pair>,
}

impl View for Context {
    type V = Map<Seq<u8>, Seq<u8>>;

    closed spec fn view(&self) -> Map<Seq<u8>, Seq<u8>> {
        store_of(self.entries@)
    }
}

impl Context {
    /// Opens a fresh unit of work with no entries.
    pub fn new() -> (r: Context)
        ensures
            r@ == Map::<Seq<u8>, Seq<u8>>::empty(),
    {
        Context { entries: Vec::new() }
    }

    /// Reads the raw bytes stored under `key`, or `None` when no entry
    /// exists for it.
    pub fn read(&self, key: &Vec<u8>) -> (r: Option<Vec<u8>>)
        ensures
            match r {
                Some(v) => self@.contains_key(key@) && v@ == self@[key@],
                None => !self@.contains_key(key@),
            },
    {
        let mut i: usize = self.entries.len();
        proof {
            assert(self.entries@.take(i as int) =~= self.entries@);
        }
        while i > 0
            invariant
                i <= self.entries.len(),
                agrees_at(store_of(self.entries@), store_of(self.entries@.take(i as int)), key@),
            decreases i,
        {
            i = i - 1;
            proof {
                assert(self.entries@.take(i as int + 1).drop_last() =~= self.entries@.take(
                    i as int,
                ));
                assert(self.entries@.take(i as int + 1).last() == self.entries@[i as int]);
            }
            if bytes_eq(&self.entries[i].key, key) {
                let out = copy_bytes(&self.entries[i].value);
                return Some(out);
            }
        }
        proof {
            assert(self.entries@.take(0) =~= Seq::<Pair>::empty());
        }
        None
    }

    /// Writes `value` under `key`, replacing whatever entry was there.
    pub fn write(&mut self, key: &Vec<u8>, value: Vec<u8>)
        ensures
            final(self)@ == old(self)@.insert(key@, value@),
    {
        let k = copy_bytes(key);
        self.entries.push(Pair { key: k, value });
        proof {
            assert(self.entries@.drop_last() =~= old(self).entries@);
        }
    }
}

/// Compares two byte strings for equality.
fn bytes_eq(a: &Vec<u8>, b: &Vec<u8>) -> (r: bool)
    ensures
        r == (a@ == b@),
{
    if a.len() != b.len() {
        return false;
    }
    let mut i: usize = 0;
    while i < a.len()
        invariant
            i <= a.len(),
            a@.len() == b@.len(),
            forall|j: int| 0 <= j < i ==> a@[j] == b@[j],
        decreases a.len() - i,
    {
        if a[i] != b[i] {
            return false;
        }
        i = i + 1;
    }
    proof {
        assert(a@ =~= b@);
    }
    true
}

/// Copies a byte string.
fn copy_bytes(src: &Vec<u8>) -> (r: Vec<u8>)
    ensures
        r@ == src@,
{
    let mut out: Vec<u8> = Vec::new();
    proof {
        assert(src@.take(0) =~= Seq::<u8>::empty());
    }
    let mut i: usize = 0;
    while i < src.len()
        invariant
            i <= src.len(),
            out@ == src@.take(i as int),
        decreases src.len() - i,
    {
        out.push(src[i]);
        proof {
            assert(src@.take(i as int).push(src@[i as int]) =~= src@.take(i as int + 1));
        }
        i = i + 1;
    }
    proof {
        assert(src@.take(src@.len() as int) =~= src@);
    }
    out
}

} // verus!
