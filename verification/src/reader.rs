//! The reader of one file's extent map: a state machine that is pulled for
//! the next extent and says when it needs the kernel.

use vstd::prelude::*;

use crate::buffer::{C_fiemap, PAGESIZE};
use crate::extent::FiemapExtent;
use crate::flags::FiemapExtentFlags;

verus! {

/// The failure of a kernel query, by the error number that the operating
/// system gave.
#[derive(Copy, Clone, Debug, PartialEq, Eq, Structural)]
pub struct FiemapError {
    pub errno: i32,
}

/// How one kernel query ended.
#[derive(Debug, PartialEq, Eq)]
pub enum QueryReply {
    /// The query succeeded and filled these slots, in this order.
    Mapped(Vec<FiemapExtent>),
    /// A signal interrupted the call before it did anything.
    Interrupted,
    /// The query failed for good.
    Failed(FiemapError),
}

/// A `QueryReply` as a plain value.
pub enum ReplyView {
    Mapped(Seq<FiemapExtent>),
    Interrupted,
    Failed(FiemapError),
}

impl View for QueryReply {
    type V = ReplyView;

    open spec fn view(&self) -> ReplyView {
        match *self {
            QueryReply::Mapped(extents) => ReplyView::Mapped(extents@),
            QueryReply::Interrupted => ReplyView::Interrupted,
            QueryReply::Failed(error) => ReplyView::Failed(error),
        }
    }
}

impl QueryReply {
    /// Whether the reader can take the outcome in.
    pub fn valid(&self) -> (ok: bool)
        ensures
            ok == self@.wf(),
    {
        match self {
            QueryReply::Mapped(extents) => {
                let n = extents.len();
                if n > PAGESIZE {
                    false
                } else if n == 0 {
                    true
                } else {
                    let last = &extents[n - 1];
                    last.fe_flags.contains(FiemapExtentFlags::last()) || last.fe_length
                        <= u64::MAX - last.fe_logical
                }
            },
            _ => true,
        }
    }
}

impl ReplyView {
    /// What the reader can take in: no more extents than the buffer has
    /// slots, and, where the last of them is not the last of the file, an
    /// end that is an offset to go on from.
    pub open spec fn wf(self) -> bool {
        match self {
            ReplyView::Mapped(batch) => {
                &&& batch.len() <= PAGESIZE
                &&& (batch.len() > 0 && !batch.last().is_last() ==> batch.last().end() <= u64::MAX)
            },
            _ => true,
        }
    }
}

/// What a pull of the reader comes to.
#[derive(Copy, Clone, Debug, PartialEq, Eq)]
pub enum Step {
    /// The pull is answered. `Some(Ok(..))` holds the next extent,
    /// `Some(Err(..))` the failure that ends the sequence, and `None` says
    /// that the sequence is over.
    Ready(Option<Result<FiemapExtent, FiemapError>>),
    /// The buffer is read out. The caller runs the query that
    /// `Fiemap::fiemap` describes and hands its outcome to `Fiemap::resume`.
    Query,
}

impl Step {
    /// Whether the step ends the sequence: it is `None`, or it holds an
    /// error.
    pub open spec fn ends(self) -> bool {
        self matches Step::Ready(item) && !(item matches Some(Ok(_)))
    }
}

/// The state of a reader as a plain value.
pub struct FiemapView {
    /// Where the query that is asked for next starts.
    pub start: u64,
    /// The extents of the last answer.
    pub batch: Seq<FiemapExtent>,
    /// How many extents of `batch` have been handed out.
    pub cursor: nat,
    /// Whether no further query is to be made.
    pub ended: bool,
}

impl FiemapView {
    /// The state of a reader that has not been pulled yet.
    pub open spec fn fresh() -> FiemapView {
        FiemapView { start: 0, batch: Seq::empty(), cursor: 0, ended: false }
    }

    /// What holds of a reader at any time: it has handed out no more
    /// extents than the answer holds, the answer fits the buffer, and,
    /// unless the reader has ended, the last extent of the answer ends at
    /// an offset to go on from.
    pub open spec fn wf(self) -> bool {
        &&& self.cursor <= self.batch.len() <= PAGESIZE
        &&& (self.batch.len() > 0 && !self.ended ==> self.batch.last().end() <= u64::MAX)
    }

    /// Whether every extent of the last answer has been handed out.
    pub open spec fn drained(self) -> bool {
        self.cursor >= self.batch.len()
    }

    /// Whether the reader needs a kernel query to go on.
    pub open spec fn awaiting(self) -> bool {
        self.drained() && !self.ended
    }

    /// Whether the sequence is over.
    pub open spec fn finished(self) -> bool {
        self.drained() && self.ended
    }

    /// Where the next query starts: behind the last extent of the last
    /// answer, or, before any extent was returned, where it started before.
    pub open spec fn resume_offset(self) -> u64 {
        if self.batch.len() > 0 {
            self.batch.last().end() as u64
        } else {
            self.start
        }
    }

    /// The state after the kernel has answered with `batch`, before any
    /// extent of it is handed out.
    pub open spec fn filled(self, batch: Seq<FiemapExtent>) -> FiemapView {
        FiemapView {
            batch,
            cursor: 0,
            ended: batch.len() == 0 || batch.last().is_last(),
            ..self
        }
    }

    /// One pull: the state after it, and what it comes to.
    pub open spec fn next(self) -> (FiemapView, Step) {
        if self.cursor < self.batch.len() {
            (
                FiemapView { cursor: self.cursor + 1, ..self },
                Step::Ready(Some(Ok(self.batch[self.cursor as int]))),
            )
        } else if self.ended {
            (self, Step::Ready(None))
        } else {
            (FiemapView { start: self.resume_offset(), ..self }, Step::Query)
        }
    }

    /// The pull that goes on from the outcome of a query. Where the reader
    /// is not waiting for one, the outcome is passed over.
    pub open spec fn resume(self, reply: ReplyView) -> (FiemapView, Step) {
        if !self.awaiting() {
            self.next()
        } else {
            match reply {
                ReplyView::Interrupted => self.next(),
                ReplyView::Failed(error) => (
                    FiemapView { ended: true, ..self },
                    Step::Ready(Some(Err(error))),
                ),
                ReplyView::Mapped(batch) => self.filled(batch).next(),
            }
        }
    }
}

/// The reader of one file's extent map. It holds no file: its caller makes
/// the kernel queries that it asks for.
#[derive(Debug)]
pub struct Fiemap {
    fiemap: C_fiemap,
    cur_idx: usize,
    size: u32,
    ended: bool,
}

impl View for Fiemap {
    type V = FiemapView;

    closed spec fn view(&self) -> FiemapView {
        FiemapView {
            start: self.fiemap.fm_start,
            batch: self.fiemap.mapped(),
            cursor: self.cur_idx as nat,
            ended: self.ended,
        }
    }
}

impl Fiemap {
    #[verifier::type_invariant]
    spec fn inv(self) -> bool {
        &&& self.fiemap.wf()
        &&& self.fiemap.fm_mapped_extents == self.size
        &&& self@.wf()
    }

    /// A reader before its first pull. No query has been made.
    pub fn new() -> (reader: Fiemap)
        ensures
            reader@ == FiemapView::fresh(),
    {
        let reader = Fiemap { fiemap: C_fiemap::new(), cur_idx: 0, size: 0, ended: false };
        assert(reader@.batch =~= Seq::empty());
        reader
    }

    /// The query buffer: the request of the query that `next` asked for,
    /// and the slots of the last answer.
    pub fn fiemap(&self) -> (buffer: &C_fiemap)
        ensures
            buffer.wf(),
            buffer.fm_start == self@.start,
            buffer.mapped() == self@.batch,
    {
        proof {
            use_type_invariant(self);
        }
        &self.fiemap
    }

    /// Takes the answer of a successful query into the buffer.
    fn get_extents(&mut self, extents: &Vec<FiemapExtent>)
        requires
            ReplyView::Mapped(extents@).wf(),
        ensures
            final(self)@ == old(self)@.filled(extents@),
    {
        proof {
            use_type_invariant(&*self);
        }
        let n = extents.len();
        let mut slots = self.fiemap.fm_extents;
        let mut i: usize = 0;
        while i < n
            invariant
                i <= n == extents.len() <= PAGESIZE,
                forall|j: int| 0 <= j < i ==> slots[j] == extents[j],
            decreases n - i,
        {
            slots[i] = extents[i];
            i += 1;
        }
        let ended = n == 0 || slots[n - 1].fe_flags.contains(FiemapExtentFlags::last());
        let fiemap = C_fiemap {
            fm_start: self.fiemap.fm_start,
            fm_length: self.fiemap.fm_length,
            fm_flags: self.fiemap.fm_flags,
            fm_mapped_extents: n as u32,
            fm_extent_count: self.fiemap.fm_extent_count,
            fm_reserved: self.fiemap.fm_reserved,
            fm_extents: slots,
        };
        assert(fiemap.mapped() =~= extents@);
        *self = Fiemap { fiemap, cur_idx: 0, size: n as u32, ended };
    }

    /// Pulls the reader for the next extent. A reader whose sequence is
    /// over stays as it is.
    pub fn next(&mut self) -> (step: Step)
        ensures
            (final(self)@, step) == old(self)@.next(),
            final(self)@.wf(),
            step.ends() ==> final(self)@.finished(),
            old(self)@.finished() ==> step == Step::Ready(None) && final(self)@ == old(self)@,
    {
        proof {
            use_type_invariant(&*self);
        }
        if self.cur_idx >= self.size as usize {
            if self.ended {
                return Step::Ready(None);
            }
            if self.size != 0 {
                let last = self.fiemap.fm_extents[self.size as usize - 1];
                self.fiemap.fm_start = last.fe_logical + last.fe_length;
            }
            return Step::Query;
        }
        let idx = self.cur_idx;
        self.cur_idx += 1;
        Step::Ready(Some(Ok(self.fiemap.fm_extents[idx])))
    }

    /// Goes on with the pull after the query that `next` asked for, with
    /// the outcome of that query. After an interruption it asks for the
    /// same query again; a failure it hands on and ends with; from an
    /// answer it hands out the first extent, or ends if there is none. A
    /// reader whose sequence is over stays as it is.
    pub fn resume(&mut self, reply: QueryReply) -> (step: Step)
        requires
            reply@.wf(),
        ensures
            (final(self)@, step) == old(self)@.resume(reply@),
            final(self)@.wf(),
            step.ends() ==> final(self)@.finished(),
            old(self)@.finished() ==> step == Step::Ready(None) && final(self)@ == old(self)@,
    {
        proof {
            use_type_invariant(&*self);
        }
        if self.cur_idx >= self.size as usize && !self.ended {
            match reply {
                QueryReply::Interrupted => {},
                QueryReply::Failed(error) => {
                    self.ended = true;
                    return Step::Ready(Some(Err(error)));
                },
                QueryReply::Mapped(extents) => {
                    self.get_extents(&extents);
                },
            }
        }
        self.next()
    }
}

} // verus!
