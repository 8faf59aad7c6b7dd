//! The file listener: watches configured files by modification time and
//! reports a change event when a file's time moves forward.
//!
//! The driver reads the modification times from disk each tick and hands
//! them in; the decision which files changed is made here.

use vstd::prelude::*;
use crate::event::Event;

verus! {

/// The file listener: each watched file's path with the last modification
/// time seen, in milliseconds.
#[derive(Debug)]
pub struct FilesListener {
    pub files_to_watch: Vec<(String, u64)>,
}

/// The change events one check raises: one per watched file whose
/// observed modification time moved past the remembered one, in watch
/// order.
pub open spec fn spec_file_events(files: Seq<(String, u64)>, observed: Seq<u64>) -> Seq<Event>
    recommends
        files.len() == observed.len(),
    decreases files.len(),
{
    if files.len() == 0 {
        Seq::<Event>::empty()
    } else {
        spec_file_events(files.drop_last(), observed.drop_last()) + if observed.last()
            > files.last().1 {
            seq![Event::FileChanged(files.last().0)]
        } else {
            Seq::<Event>::empty()
        }
    }
}

impl FilesListener {
    /// A listener watching nothing yet.
    pub fn new() -> (r: Self)
        ensures
            r.files_to_watch@.len() == 0,
    {
        Self { files_to_watch: Vec::new() }
    }

    /// Starts watching a file, taking its current modification time as
    /// the baseline.
    pub fn register(&mut self, path: String, mtime: u64)
        ensures
            final(self).files_to_watch@ == old(self).files_to_watch@.push((path, mtime)),
    {
        self.files_to_watch.push((path, mtime));
    }

    /// Checks the observed modification times, one per watched file in
    /// order: a time later than the remembered one raises a change event
    /// for that file and becomes the new baseline.
    pub fn check(&mut self, observed: &Vec<u64>, v: &mut Vec<Event>)
        requires
            observed@.len() == old(self).files_to_watch@.len(),
        ensures
            final(self).files_to_watch@.len() == old(self).files_to_watch@.len(),
            forall|k: int|
                0 <= k < old(self).files_to_watch@.len() ==> (#[trigger] final(self).files_to_watch@[k]) == (
                old(self).files_to_watch@[k].0,
                if observed@[k] > old(self).files_to_watch@[k].1 {
                    observed@[k]
                } else {
                    old(self).files_to_watch@[k].1
                },
            ),
            final(v)@ == old(v)@ + spec_file_events(old(self).files_to_watch@, observed@),
    {
        let n = self.files_to_watch.len();
        let ghost f0 = self.files_to_watch@;
        let ghost v0 = v@;
        proof {
            assert(f0.take(0int) =~= Seq::<(String, u64)>::empty());
            assert(v@ =~= v0 + spec_file_events(f0.take(0int), observed@.take(0int)));
        }
        let mut i: usize = 0;
        while i < n
            invariant
                n == self.files_to_watch@.len(),
                n == f0.len(),
                n == observed@.len(),
                i <= n,
                forall|k: int| i <= k < n ==> #[trigger] self.files_to_watch@[k] == f0[k],
                forall|k: int|
                    0 <= k < i ==> (#[trigger] self.files_to_watch@[k]) == (
                    f0[k].0,
                    if observed@[k] > f0[k].1 {
                        observed@[k]
                    } else {
                        f0[k].1
                    },
                ),
                v@ == v0 + spec_file_events(f0.take(i as int), observed@.take(i as int)),
            decreases n - i,
        {
            proof {
                assert(f0.take(i + 1).drop_last() =~= f0.take(i as int));
                assert(observed@.take(i + 1).drop_last() =~= observed@.take(i as int));
                assert(f0.take(i + 1).last() == f0[i as int]);
                assert(observed@.take(i + 1).last() == observed@[i as int]);
            }
            let newtime = observed[i];
            if newtime > self.files_to_watch[i].1 {
                let path = self.files_to_watch[i].0.clone();
                let slot = &mut self.files_to_watch[i];
                slot.1 = newtime;
                v.push(Event::FileChanged(path));
            }
            proof {
                assert(v@ =~= v0 + spec_file_events(f0.take(i + 1), observed@.take(i + 1)));
            }
            i = i + 1;
        }
        proof {
            assert(f0.take(n as int) =~= f0);
            assert(observed@.take(n as int) =~= observed@);
        }
    }
}

} // verus!
