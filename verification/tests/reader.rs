use std::collections::VecDeque;

use fiemap::flags::{FIEMAP_EXTENT_LAST, FIEMAP_EXTENT_SHARED, FIEMAP_EXTENT_UNWRITTEN};
use fiemap::{Fiemap, FiemapError, FiemapExtent, FiemapExtentFlags, QueryReply, Step, PAGESIZE};

type Item = Result<FiemapExtent, FiemapError>;

/// How the next call of the kernel is to end.
#[derive(Clone, Copy)]
enum Fate {
    Answer,
    Interrupt,
    Fail(i32),
}

/// Stands for the kernel: the extents of one file, the fates of the next
/// calls (a call without one answers), and the starts of the queries seen.
struct Kernel {
    extents: Vec<FiemapExtent>,
    fates: VecDeque<Fate>,
    starts: Vec<u64>,
}

impl Kernel {
    fn new(extents: Vec<FiemapExtent>) -> Kernel {
        Kernel { extents, fates: VecDeque::new(), starts: Vec::new() }
    }

    fn with_fates(extents: Vec<FiemapExtent>, fates: &[Fate]) -> Kernel {
        Kernel { extents, fates: fates.iter().copied().collect(), starts: Vec::new() }
    }

    /// Answers as the kernel does: with the extents that reach behind the
    /// start of the query, as many as there are slots.
    fn query(&mut self, reader: &Fiemap) -> QueryReply {
        let request = reader.fiemap();
        assert_eq!(request.fm_length, u64::MAX);
        assert_eq!(request.fm_flags, 0);
        assert_eq!(request.fm_extent_count as usize, PAGESIZE);
        self.starts.push(request.fm_start);
        match self.fates.pop_front().unwrap_or(Fate::Answer) {
            Fate::Interrupt => QueryReply::Interrupted,
            Fate::Fail(errno) => QueryReply::Failed(FiemapError { errno }),
            Fate::Answer => QueryReply::Mapped(
                self.extents
                    .iter()
                    .filter(|e| e.fe_logical + e.fe_length > request.fm_start)
                    .take(request.fm_extent_count as usize)
                    .copied()
                    .collect(),
            ),
        }
    }
}

/// One pull of a consumer: the reader is called until it has an answer.
fn pull(reader: &mut Fiemap, kernel: &mut Kernel) -> Option<Item> {
    let mut step = reader.next();
    loop {
        match step {
            Step::Ready(item) => return item,
            Step::Query => {
                let reply = kernel.query(reader);
                assert!(reply.valid());
                step = reader.resume(reply);
            }
        }
    }
}

/// Pulls until the sequence is over.
fn drain(reader: &mut Fiemap, kernel: &mut Kernel) -> Vec<Item> {
    let mut items = Vec::new();
    while let Some(item) = pull(reader, kernel) {
        items.push(item);
    }
    items
}

fn extent(logical: u64, length: u64, bits: u32) -> FiemapExtent {
    FiemapExtent {
        fe_logical: logical,
        fe_physical: 0x4000_0000 + 2 * logical,
        fe_length: length,
        fe_flags: FiemapExtentFlags::from_bits_retain(bits),
    }
}

/// A file of `count` extents of 4096 bytes with a hole of 4096 bytes
/// behind each, the last one marked as the last.
fn file(count: u64) -> Vec<FiemapExtent> {
    (0..count)
        .map(|i| extent(8192 * i, 4096, if i + 1 == count { FIEMAP_EXTENT_LAST } else { 0 }))
        .collect()
}

fn oks(extents: &[FiemapExtent]) -> Vec<Item> {
    extents.iter().map(|e| Ok(*e)).collect()
}

#[test]
fn fresh_reader_asks_for_the_first_query_at_offset_zero() {
    let mut reader = Fiemap::new();
    assert_eq!(reader.fiemap().fm_mapped_extents, 0);
    assert_eq!(reader.next(), Step::Query);
    let request = reader.fiemap();
    assert_eq!(request.fm_start, 0);
    assert_eq!(request.fm_length, u64::MAX);
    assert_eq!(request.fm_flags, 0);
    assert_eq!(request.fm_extent_count, 8);
    assert_eq!(request.fm_mapped_extents, 0);
}

#[test]
fn empty_file_yields_nothing() {
    let mut reader = Fiemap::new();
    let mut kernel = Kernel::new(Vec::new());
    assert_eq!(pull(&mut reader, &mut kernel), None);
    assert_eq!(kernel.starts, vec![0]);
    assert_eq!(pull(&mut reader, &mut kernel), None);
    assert_eq!(kernel.starts, vec![0]);
}

#[test]
fn file_of_few_extents_takes_one_query() {
    let extents = vec![
        extent(0, 4096, 0),
        extent(4096, 12288, FIEMAP_EXTENT_UNWRITTEN),
        extent(65536, 1 << 20, FIEMAP_EXTENT_SHARED | FIEMAP_EXTENT_LAST),
    ];
    let mut reader = Fiemap::new();
    let mut kernel = Kernel::new(extents.clone());

    let first = pull(&mut reader, &mut kernel).unwrap().unwrap();
    assert_eq!(first.fe_logical, 0);
    assert_eq!(first.fe_physical, 0x4000_0000);
    assert_eq!(first.fe_length, 4096);
    assert_eq!(first.fe_flags.bits(), 0);
    let second = pull(&mut reader, &mut kernel).unwrap().unwrap();
    assert_eq!(second.fe_logical, 4096);
    assert_eq!(second.fe_physical, 0x4000_2000);
    assert_eq!(second.fe_length, 12288);
    assert_eq!(second.fe_flags.bits(), 0x800);
    let third = pull(&mut reader, &mut kernel).unwrap().unwrap();
    assert_eq!(third.fe_logical, 65536);
    assert_eq!(third.fe_physical, 0x4002_0000);
    assert_eq!(third.fe_length, 1048576);
    assert_eq!(third.fe_flags.bits(), 0x2001);
    assert!(third.fe_flags.contains(FiemapExtentFlags::last()));

    assert_eq!(pull(&mut reader, &mut kernel), None);
    assert_eq!(kernel.starts, vec![0]);
}

#[test]
fn file_of_one_full_batch_takes_one_query() {
    let extents = file(8);
    let mut reader = Fiemap::new();
    let mut kernel = Kernel::new(extents.clone());
    assert_eq!(drain(&mut reader, &mut kernel), oks(&extents));
    assert_eq!(kernel.starts, vec![0]);
}

#[test]
fn file_of_three_batches_is_read_without_gap_or_repeat() {
    let extents = file(24);
    let mut reader = Fiemap::new();
    let mut kernel = Kernel::new(extents.clone());
    let items = drain(&mut reader, &mut kernel);
    assert_eq!(items.len(), 24);
    assert_eq!(items, oks(&extents));
    // Each query starts behind the last extent of the answer before it.
    assert_eq!(kernel.starts, vec![0, 7 * 8192 + 4096, 15 * 8192 + 4096]);
    for pair in items.windows(2) {
        assert!(pair[0].unwrap().fe_logical < pair[1].unwrap().fe_logical);
    }
}

#[test]
fn file_with_a_part_batch_at_the_end() {
    let extents = file(19);
    let mut reader = Fiemap::new();
    let mut kernel = Kernel::new(extents.clone());
    assert_eq!(drain(&mut reader, &mut kernel), oks(&extents));
    assert_eq!(kernel.starts, vec![0, 61440, 126976]);
}

#[test]
fn answer_without_extents_ends_a_file_without_last_mark() {
    let extents: Vec<FiemapExtent> = (0..8).map(|i| extent(4096 * i, 4096, 0)).collect();
    let mut reader = Fiemap::new();
    let mut kernel = Kernel::new(extents.clone());
    assert_eq!(drain(&mut reader, &mut kernel), oks(&extents));
    // The second query finds nothing behind the eighth extent.
    assert_eq!(kernel.starts, vec![0, 32768]);
    assert_eq!(pull(&mut reader, &mut kernel), None);
    assert_eq!(kernel.starts, vec![0, 32768]);
}

#[test]
fn resume_offset_is_logical_plus_length_of_the_last_extent() {
    let mut reader = Fiemap::new();
    assert_eq!(reader.next(), Step::Query);
    let batch = vec![extent(100, 23, 0), extent(1000, 7, 0)];
    assert_eq!(reader.resume(QueryReply::Mapped(batch.clone())), Step::Ready(Some(Ok(batch[0]))));
    assert_eq!(reader.fiemap().fm_mapped_extents, 2);
    assert_eq!(reader.fiemap().fm_extents[0], batch[0]);
    assert_eq!(reader.fiemap().fm_extents[1], batch[1]);
    assert_eq!(reader.next(), Step::Ready(Some(Ok(batch[1]))));
    assert_eq!(reader.fiemap().fm_start, 0);
    assert_eq!(reader.next(), Step::Query);
    assert_eq!(reader.fiemap().fm_start, 1007);
}

#[test]
fn interrupted_query_is_asked_again_and_not_seen() {
    let extents = file(20);
    let mut plain = Kernel::new(extents.clone());
    let expected = drain(&mut Fiemap::new(), &mut plain);
    assert_eq!(expected, oks(&extents));

    let fates = [
        Fate::Interrupt,
        Fate::Answer,
        Fate::Interrupt,
        Fate::Interrupt,
        Fate::Interrupt,
        Fate::Answer,
        Fate::Answer,
    ];
    let mut kernel = Kernel::with_fates(extents.clone(), &fates);
    let mut reader = Fiemap::new();
    assert_eq!(drain(&mut reader, &mut kernel), expected);
    // The query after an interruption starts where the interrupted one did.
    assert_eq!(kernel.starts, vec![0, 0, 61440, 61440, 61440, 61440, 126976]);
}

#[test]
fn interruption_leaves_the_reader_as_it_was() {
    let mut reader = Fiemap::new();
    assert_eq!(reader.next(), Step::Query);
    assert_eq!(reader.resume(QueryReply::Mapped(vec![extent(0, 512, 0)])), Step::Ready(Some(Ok(extent(0, 512, 0)))));
    assert_eq!(reader.next(), Step::Query);
    assert_eq!(reader.fiemap().fm_start, 512);
    for _ in 0..5 {
        assert_eq!(reader.resume(QueryReply::Interrupted), Step::Query);
        assert_eq!(reader.fiemap().fm_start, 512);
        assert_eq!(reader.fiemap().fm_mapped_extents, 1);
    }
    let last = extent(512, 512, FIEMAP_EXTENT_LAST);
    assert_eq!(reader.resume(QueryReply::Mapped(vec![last])), Step::Ready(Some(Ok(last))));
    assert_eq!(reader.next(), Step::Ready(None));
}

#[test]
fn failure_is_yielded_once_and_ends_the_sequence() {
    let extents = file(24);
    let fates = [Fate::Answer, Fate::Fail(5)];
    let mut kernel = Kernel::with_fates(extents.clone(), &fates);
    let mut reader = Fiemap::new();

    for expected in &extents[..8] {
        assert_eq!(pull(&mut reader, &mut kernel), Some(Ok(*expected)));
    }
    assert_eq!(pull(&mut reader, &mut kernel), Some(Err(FiemapError { errno: 5 })));
    // Sixteen extents are unread, and the kernel would answer: the reader
    // does not ask.
    assert_eq!(pull(&mut reader, &mut kernel), None);
    assert_eq!(pull(&mut reader, &mut kernel), None);
    assert_eq!(kernel.starts, vec![0, 61440]);
}

#[test]
fn failure_of_the_first_query() {
    let mut kernel = Kernel::with_fates(file(3), &[Fate::Fail(95)]);
    let mut reader = Fiemap::new();
    assert_eq!(drain(&mut reader, &mut kernel), vec![Err(FiemapError { errno: 95 })]);
    assert_eq!(kernel.starts, vec![0]);
}

#[test]
fn failure_after_interruptions() {
    let fates = [Fate::Interrupt, Fate::Interrupt, Fate::Fail(25)];
    let mut kernel = Kernel::with_fates(file(3), &fates);
    let mut reader = Fiemap::new();
    assert_eq!(drain(&mut reader, &mut kernel), vec![Err(FiemapError { errno: 25 })]);
    assert_eq!(kernel.starts, vec![0, 0, 0]);
}

#[test]
fn finished_reader_stays_finished() {
    let extents = file(2);
    let mut reader = Fiemap::new();
    let mut kernel = Kernel::new(extents.clone());
    assert_eq!(drain(&mut reader, &mut kernel), oks(&extents));

    for _ in 0..3 {
        assert_eq!(reader.next(), Step::Ready(None));
        assert_eq!(reader.resume(QueryReply::Interrupted), Step::Ready(None));
        assert_eq!(reader.resume(QueryReply::Failed(FiemapError { errno: 5 })), Step::Ready(None));
        assert_eq!(reader.resume(QueryReply::Mapped(file(4))), Step::Ready(None));
        assert_eq!(reader.resume(QueryReply::Mapped(Vec::new())), Step::Ready(None));
    }
    // What the reader was handed after its end did not reach its buffer.
    assert_eq!(reader.fiemap().fm_mapped_extents, 2);
    assert_eq!(reader.fiemap().fm_extents[1], extents[1]);
    assert_eq!(kernel.starts, vec![0]);
}

#[test]
fn reader_stays_finished_after_a_failure() {
    let mut reader = Fiemap::new();
    assert_eq!(reader.next(), Step::Query);
    assert_eq!(
        reader.resume(QueryReply::Failed(FiemapError { errno: 22 })),
        Step::Ready(Some(Err(FiemapError { errno: 22 })))
    );
    for _ in 0..3 {
        assert_eq!(reader.next(), Step::Ready(None));
        assert_eq!(reader.resume(QueryReply::Mapped(file(1))), Step::Ready(None));
    }
}

#[test]
fn outcome_is_passed_over_while_extents_are_unread() {
    let extents = file(3);
    let mut reader = Fiemap::new();
    assert_eq!(reader.next(), Step::Query);
    assert_eq!(reader.resume(QueryReply::Mapped(extents.clone())), Step::Ready(Some(Ok(extents[0]))));
    // The reader has not asked: it goes on with its buffer.
    assert_eq!(
        reader.resume(QueryReply::Failed(FiemapError { errno: 5 })),
        Step::Ready(Some(Ok(extents[1])))
    );
    assert_eq!(reader.resume(QueryReply::Mapped(file(8))), Step::Ready(Some(Ok(extents[2]))));
    assert_eq!(reader.next(), Step::Ready(None));
}

#[test]
fn next_asks_again_until_the_query_is_answered() {
    let mut reader = Fiemap::new();
    assert_eq!(reader.next(), Step::Query);
    assert_eq!(reader.next(), Step::Query);
    assert_eq!(reader.resume(QueryReply::Mapped(vec![extent(0, 10, 0)])), Step::Ready(Some(Ok(extent(0, 10, 0)))));
    assert_eq!(reader.next(), Step::Query);
    assert_eq!(reader.next(), Step::Query);
    assert_eq!(reader.fiemap().fm_start, 10);
}

#[test]
fn last_mark_counts_on_the_last_extent_of_an_answer_only() {
    let batch = vec![extent(0, 4096, FIEMAP_EXTENT_LAST), extent(4096, 4096, 0)];
    let mut reader = Fiemap::new();
    assert_eq!(reader.next(), Step::Query);
    assert_eq!(reader.resume(QueryReply::Mapped(batch.clone())), Step::Ready(Some(Ok(batch[0]))));
    assert_eq!(reader.next(), Step::Ready(Some(Ok(batch[1]))));
    assert_eq!(reader.next(), Step::Query);
    assert_eq!(reader.fiemap().fm_start, 8192);
}

#[test]
fn last_mark_among_other_flags_ends_the_sequence() {
    let batch = vec![extent(0, 4096, 0xffff_ffff)];
    let mut reader = Fiemap::new();
    assert_eq!(reader.next(), Step::Query);
    assert_eq!(reader.resume(QueryReply::Mapped(batch.clone())), Step::Ready(Some(Ok(batch[0]))));
    assert_eq!(reader.next(), Step::Ready(None));
}

#[test]
fn valid_outcomes() {
    assert!(QueryReply::Interrupted.valid());
    assert!(QueryReply::Failed(FiemapError { errno: 5 }).valid());
    assert!(QueryReply::Mapped(Vec::new()).valid());
    assert!(QueryReply::Mapped(file(8)).valid());
    assert!(QueryReply::Mapped(vec![extent(u64::MAX - 4096, 4096, 0)]).valid());
    // An end that no offset can hold is taken from the last extent of the
    // file, which nothing follows.
    assert!(QueryReply::Mapped(vec![extent(u64::MAX, 4096, FIEMAP_EXTENT_LAST)]).valid());
    assert!(QueryReply::Mapped(vec![extent(u64::MAX, 4096, 0), extent(0, 1, 0)]).valid());
}

#[test]
fn outcomes_that_are_not_valid() {
    // More extents than the buffer has slots.
    assert!(!QueryReply::Mapped(file(9)).valid());
    // A last extent that is not the last of the file and ends behind every
    // offset.
    assert!(!QueryReply::Mapped(vec![extent(u64::MAX - 4095, 4096, 0)]).valid());
    assert!(!QueryReply::Mapped(vec![extent(0, 1, 0), extent(u64::MAX, 1, 0)]).valid());
}

#[test]
fn extent_at_the_end_of_the_offset_range() {
    let batch = vec![extent(u64::MAX - 4096, 4096, 0)];
    let mut reader = Fiemap::new();
    assert_eq!(reader.next(), Step::Query);
    assert_eq!(reader.resume(QueryReply::Mapped(batch.clone())), Step::Ready(Some(Ok(batch[0]))));
    assert_eq!(reader.next(), Step::Query);
    assert_eq!(reader.fiemap().fm_start, u64::MAX);
}
