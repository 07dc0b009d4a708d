//! Pagination of a filtered, sorted result list, together with the
//! content-range triple (start, end, total-before-pagination) reported to
//! the client.
use vstd::prelude::*;

verus! {

/// The page that offset/limit select from `s`. An offset at or past the end
/// leaves the list whole (no elements are dropped); otherwise the prefix of
/// length `offset` is dropped and, with a limit, the remainder is cut to it.
pub open spec fn page_seq<T>(s: Seq<T>, offset: int, limit: Option<usize>) -> Seq<T> {
    if offset >= s.len() {
        s
    } else {
        let tail = s.subrange(offset, s.len() as int);
        match limit {
            Option::None => tail,
            Option::Some(l) => if (l as int) < tail.len() {
                tail.take(l as int)
            } else {
                tail
            },
        }
    }
}

/// The reported end of the range: without a limit it is the total count;
/// with a limit it is the offset plus the number of items actually returned.
pub open spec fn page_end<T>(s: Seq<T>, offset: int, limit: Option<usize>) -> int {
    match limit {
        Option::None => s.len() as int,
        Option::Some(l) => offset + page_seq(s, offset, limit).len(),
    }
}

/// Cut `results` down to the requested page and report the content range.
/// Returns the page together with (range start, range end, total before
/// pagination).
pub fn paginate<T>(results: Vec<T>, offset: usize, limit: Option<usize>) -> (r: (
    Vec<T>,
    usize,
    usize,
    usize,
))
    requires
        offset + results@.len() <= usize::MAX,
    ensures
        r.0@ == page_seq(results@, offset as int, limit),
        r.1 == offset,
        r.2 == page_end(results@, offset as int, limit),
        r.3 == results@.len(),
{
    let ghost s = results@;
    let total: usize = results.len();
    match limit {
        Option::None => {
            if offset == 0 {
                (results, 0, total, total)
            } else if offset < total {
                let mut head = results;
                let tail = head.split_off(offset);
                proof {
                    assert(tail@ =~= page_seq(s, offset as int, limit));
                }
                (tail, offset, total, total)
            } else {
                (results, offset, total, total)
            }
        }
        Option::Some(l) => {
            if offset < total {
                let mut head = results;
                let mut tail = head.split_off(offset);
                tail.truncate(l);
                proof {
                    if (l as int) < s.len() - offset {
                        assert(tail@ =~= s.subrange(offset as int, s.len() as int).take(l as int));
                    } else {
                        assert(tail@ =~= s.subrange(offset as int, s.len() as int));
                    }
                }
                let end: usize = offset + tail.len();
                (tail, offset, end, total)
            } else {
                let end: usize = offset + results.len();
                (results, offset, end, total)
            }
        }
    }
}

} // verus!
