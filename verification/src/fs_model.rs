use vstd::prelude::*;

verus! {

/// A write log as path/content view pairs.
pub open spec fn spec_log_view(log: Seq<(Vec<u8>, String)>) -> Seq<(Seq<u8>, Seq<char>)> {
    Seq::new(log.len(), |i: int| (log[i].0@, log[i].1@))
}

/// What a sequence of writes leaves on disk: later writes to a path
/// override earlier ones.
pub open spec fn spec_written(log: Seq<(Seq<u8>, Seq<char>)>) -> Map<Seq<u8>, Seq<char>>
    decreases log.len(),
{
    if log.len() == 0 {
        Map::empty()
    } else {
        spec_written(log.drop_last()).insert(log.last().0, log.last().1)
    }
}

proof fn lemma_written_contains(log: Seq<(Seq<u8>, Seq<char>)>, k: Seq<u8>)
    ensures
        spec_written(log).contains_key(k) <==> exists|i: int| 0 <= i < log.len() && log[i].0 == k,
    decreases log.len(),
{
    if log.len() > 0 {
        lemma_written_contains(log.drop_last(), k);
        if log.last().0 == k {
            assert(log[log.len() - 1].0 == k);
        } else if spec_written(log).contains_key(k) {
            let i = choose|i: int| 0 <= i < log.drop_last().len() && log.drop_last()[i].0 == k;
            assert(log[i].0 == k);
        } else if exists|i: int| 0 <= i < log.len() && log[i].0 == k {
            let i = choose|i: int| 0 <= i < log.len() && log[i].0 == k;
            assert(log.drop_last()[i].0 == k);
        }
    }
}

/// An in-memory stand-in for the destination directory: the log of writes
/// made to it, read through the last write to each path. It lets a whole
/// batch run against remembered state instead of a disk.
pub struct FsModel {
    log: Vec<(Vec<u8>, String)>,
}

impl FsModel {
    /// The contents: each path maps to what was written to it last.
    pub closed spec fn view(&self) -> Map<Seq<u8>, Seq<char>> {
        spec_written(spec_log_view(self.log@))
    }

    /// An empty destination: nothing written yet.
    pub fn new() -> (r: FsModel)
        ensures
            r@ == Map::<Seq<u8>, Seq<char>>::empty(),
    {
        let r = FsModel { log: Vec::new() };
        proof {
            assert(spec_log_view(r.log@) =~= Seq::<(Seq<u8>, Seq<char>)>::empty());
        }
        r
    }

    /// Whether a file exists at `path`.
    pub fn contains(&self, path: &Vec<u8>) -> (r: bool)
        ensures
            r == self@.contains_key(path@),
    {
        proof {
            lemma_written_contains(spec_log_view(self.log@), path@);
        }
        let mut i: usize = 0;
        while i < self.log.len()
            invariant
                0 <= i <= self.log@.len(),
                forall|j: int| 0 <= j < i ==> spec_log_view(self.log@)[j].0 != path@,
            decreases self.log@.len() - i,
        {
            if bytes_eq(&self.log[i].0, path) {
                proof {
                    assert(spec_log_view(self.log@)[i as int].0 == path@);
                    lemma_written_contains(spec_log_view(self.log@), path@);
                }
                return true;
            }
            i = i + 1;
        }
        false
    }

    /// Write `content` to `path`, overriding whatever was there.
    pub fn write(&mut self, path: Vec<u8>, content: String)
        ensures
            final(self)@ == old(self)@.insert(path@, content@),
    {
        let ghost before = spec_log_view(self.log@);
        let ghost p = path@;
        let ghost c = content@;
        self.log.push((path, content));
        proof {
            assert(spec_log_view(self.log@) =~= before.push((p, c)));
            assert(spec_log_view(self.log@).drop_last() =~= before);
        }
    }

    /// What the file at `path` holds, when one exists: the content written
    /// to it last.
    pub fn read(&self, path: &Vec<u8>) -> (r: Option<&String>)
        ensures
            self@.contains_key(path@) ==> (r matches Some(s) && s@ == self@[path@]),
            !self@.contains_key(path@) ==> r is None,
    {
        let ghost full = spec_log_view(self.log@);
        proof {
            assert(full.take(self.log@.len() as int) =~= full);
        }
        let mut i: usize = self.log.len();
        while i > 0
            invariant
                0 <= i <= self.log@.len(),
                full == spec_log_view(self.log@),
                self@ == spec_written(full),
                self@.contains_key(path@) ==> spec_written(full.take(i as int)).contains_key(
                    path@,
                ) && spec_written(full.take(i as int))[path@] == self@[path@],
                forall|j: int| i <= j < full.len() ==> full[j].0 != path@,
            decreases i,
        {
            proof {
                assert(full.take(i as int).drop_last() =~= full.take(i - 1));
                assert(full.take(i as int).last() == full[i - 1]);
            }
            if bytes_eq(&self.log[i - 1].0, path) {
                proof {
                    assert(full[i - 1].0 == path@);
                    lemma_written_contains(full, path@);
                    assert(spec_written(full.take(i as int))[path@] == full[i - 1].1);
                }
                return Some(&self.log[i - 1].1);
            }
            i = i - 1;
        }
        proof {
            if self@.contains_key(path@) {
                assert(full.take(0) =~= Seq::<(Seq<u8>, Seq<char>)>::empty());
                assert(spec_written(full.take(0)).contains_key(path@));
            }
        }
        None
    }
}

/// Byte-string equality, spelled out so that callers get it in full.
fn bytes_eq(a: &Vec<u8>, b: &Vec<u8>) -> (r: bool)
    ensures
        r == (a@ == b@),
{
    if a.len() != b.len() {
        proof {
            assert(a@ != b@);
        }
        return false;
    }
    let mut i: usize = 0;
    while i < a.len()
        invariant
            0 <= i <= a@.len(),
            a@.len() == b@.len(),
            forall|j: int| 0 <= j < i ==> a@[j] == b@[j],
        decreases a@.len() - i,
    {
        if a[i] != b[i] {
            return false;
        }
        i = i + 1;
    }
    proof {
        assert(a@ =~= b@);
    }
    true
}

} // verus!
