//! The queue of URLs that wait to be probed.
//!
//! The queue is filled once, when the run starts, and only shrinks after
//! that: each [`JobQueue::take`] hands out one URL and removes it, so no URL
//! is handed out twice. Workers that share a queue call `take` one at a time.

use crate::text::texts;
use std::collections::VecDeque;
use vstd::prelude::*;

verus! {

pub struct JobQueue {
    pending: VecDeque<String>,
}

impl View for JobQueue {
    type V = Seq<Seq<char>>;

    closed spec fn view(&self) -> Seq<Seq<char>> {
        texts(self.pending@)
    }
}

impl JobQueue {
    /// A queue that holds `urls`, the first of them at the front.
    pub fn new(urls: Vec<String>) -> (queue: JobQueue)
        ensures
            queue@ == texts(urls@),
    {
        let mut urls = urls;
        let ghost all = urls@;
        let mut pending: VecDeque<String> = VecDeque::new();
        assert(urls@ + pending@ =~= all);
        while urls.len() > 0
            invariant
                urls@ + pending@ == all,
            decreases urls.len(),
        {
            let ghost before = urls@;
            let ghost queued = pending@;
            match urls.pop() {
                Some(url) => {
                    pending.push_front(url);
                    assert(urls@ + pending@ =~= before + queued);
                },
                None => {},
            }
        }
        assert(pending@ =~= all);
        JobQueue { pending }
    }

    /// The number of URLs that wait.
    pub fn len(&self) -> (n: usize)
        ensures
            n == self@.len(),
    {
        self.pending.len()
    }

    /// Tells whether every URL was handed out.
    pub fn is_empty(&self) -> (empty: bool)
        ensures
            empty == (self@.len() == 0),
    {
        self.pending.len() == 0
    }

    /// Hands out the URL at the front and removes it from the queue; nothing
    /// when the queue is empty.
    pub fn take(&mut self) -> (job: Option<String>)
        ensures
            match job {
                Some(url) => {
                    &&& old(self)@.len() > 0
                    &&& url@ == old(self)@[0]
                    &&& final(self)@ == old(self)@.drop_first()
                },
                None => old(self)@.len() == 0 && final(self)@ == old(self)@,
            },
    {
        let job = self.pending.pop_front();
        proof {
            if job is Some {
                assert(texts(self.pending@) =~= texts(old(self).pending@).drop_first());
            }
        }
        job
    }
}

} // verus!
