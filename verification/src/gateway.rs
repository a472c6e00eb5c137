//! The translation gateway: deduplicates source texts observed during the
//! current process run and records each distinct trimmed, non-empty text
//! once as a pending line. Looking the text up in the external translation
//! cache and appending pending lines to disk belong to the surrounding
//! process; this module owns the decision of what is recorded.

use crate::bytes::{bytes_eq, copy_bytes, strip_nul_bytes, strip_trailing_nul, trim_bytes, trimmed};
use vstd::prelude::*;

verus! {

/// Whether a byte sequence is valid UTF-8.
pub uninterp spec fn utf8_ok(s: Seq<u8>) -> bool;

/// Relies on std::str::from_utf8: whether decoding succeeds depends on the
/// bytes alone.
#[verifier::external_body]
fn is_utf8(b: &Vec<u8>) -> (r: bool)
    ensures
        r == utf8_ok(b@),
{
    std::str::from_utf8(b.as_slice()).is_ok()
}

/// No two recorded lines are equal.
pub open spec fn distinct_lines(lines: Seq<Seq<u8>>) -> bool {
    forall|i: int, j: int| 0 <= i < j < lines.len() ==> lines[i] != lines[j]
}

/// The queue after offering `text`: nothing changes when the trimmed text
/// is empty or already recorded; otherwise the trimmed text is appended.
pub open spec fn enqueue_spec(lines: Seq<Seq<u8>>, text: Seq<u8>) -> Seq<Seq<u8>> {
    let t = trimmed(text);
    if t.len() == 0 || lines.contains(t) {
        lines
    } else {
        lines.push(t)
    }
}

/// The queue after a replacement function offered raw `text` to the
/// translator: the trimmed text is recorded when `text` decodes as UTF-8
/// and is non-empty once trailing terminators are stripped, and the queue
/// is untouched otherwise.
pub open spec fn offered(lines: Seq<Seq<u8>>, text: Seq<u8>) -> Seq<Seq<u8>> {
    if utf8_ok(text) && strip_trailing_nul(text).len() > 0 {
        enqueue_spec(lines, strip_trailing_nul(text))
    } else {
        lines
    }
}

/// The source texts seen this process run, in the order first observed.
/// Each distinct trimmed, non-empty text appears exactly once; the view is
/// the sequence of recorded pending lines. The set is never cleared within
/// a run; an external consumer mirrors newly recorded lines to the
/// append-only pending list.
pub struct PendingQueue {
    lines: Vec<Vec<u8>>,
}

impl View for PendingQueue {
    type V = Seq<Seq<u8>>;

    closed spec fn view(&self) -> Seq<Seq<u8>> {
        self.lines@.map_values(|v: Vec<u8>| v@)
    }
}

impl PendingQueue {
    /// Recorded lines are pairwise distinct and never empty.
    pub open spec fn wf(&self) -> bool {
        &&& distinct_lines(self@)
        &&& forall|i: int| 0 <= i < self@.len() ==> (#[trigger] self@[i]).len() > 0
    }

    /// An empty queue, as at the start of a process run.
    pub fn new() -> (q: PendingQueue)
        ensures
            q.wf(),
            q@ == Seq::<Seq<u8>>::empty(),
    {
        let q = PendingQueue { lines: Vec::new() };
        proof {
            assert(q@ =~= Seq::<Seq<u8>>::empty());
        }
        q
    }

    /// The number of pending lines recorded so far.
    pub fn line_count(&self) -> (n: usize)
        ensures
            n == self@.len(),
    {
        self.lines.len()
    }

    /// A copy of the pending line at `index`.
    pub fn line_at(&self, index: usize) -> (r: Vec<u8>)
        requires
            index < self@.len(),
        ensures
            r@ == self@[index as int],
    {
        copy_bytes(&self.lines[index])
    }

    /// Records `text` if its trimmed form is non-empty and not yet seen
    /// this run. Returns whether a new pending line was appended, in which
    /// case the caller must mirror it to the pending list.
    pub fn enqueue_if_new(&mut self, text: &Vec<u8>) -> (appended: bool)
        requires
            old(self).wf(),
        ensures
            final(self).wf(),
            final(self)@ == enqueue_spec(old(self)@, text@),
            appended == (trimmed(text@).len() > 0 && !old(self)@.contains(trimmed(text@))),
    {
        let t = trim_bytes(text);
        if t.len() == 0 {
            return false;
        }
        let mut k: usize = 0;
        while k < self.lines.len()
            invariant
                self.wf(),
                t@ == trimmed(text@),
                k <= self.lines@.len(),
                self@.len() == self.lines@.len(),
                forall|j: int| 0 <= j < k ==> self@[j] != t@,
            decreases self.lines@.len() - k,
        {
            if bytes_eq(&self.lines[k], &t) {
                proof {
                    assert(self@[k as int] == t@);
                    assert(self@.contains(t@));
                }
                return false;
            }
            k = k + 1;
        }
        proof {
            assert forall|j: int| 0 <= j < self@.len() implies self@[j] != t@ by {}
            assert(!self@.contains(t@));
        }
        let ghost pre = self@;
        self.lines.push(t);
        proof {
            assert(self@ =~= pre.push(trimmed(text@)));
            assert forall|i: int, j: int| 0 <= i < j < self@.len() implies self@[i] != self@[j] by {
                if j == self@.len() - 1 {
                    assert(self@[i] == pre[i]);
                    assert(pre[i] != trimmed(text@));
                }
            }
        }
        true
    }
}

/// Offers raw intercepted bytes for translation: the bytes must decode as
/// UTF-8 and be non-empty once trailing terminators are stripped, in which
/// case the text is recorded as pending. The translation cache is not
/// consulted on this path, so no replacement text is ever produced here.
pub fn translate_bytes(queue: &mut PendingQueue, original: &Vec<u8>) -> (r: Option<Vec<u8>>)
    requires
        old(queue).wf(),
    ensures
        final(queue).wf(),
        r is None,
        final(queue)@ == offered(old(queue)@, original@),
{
    if !is_utf8(original) {
        return None;
    }
    let stripped = strip_nul_bytes(original);
    if stripped.len() == 0 {
        return None;
    }
    queue.enqueue_if_new(&stripped);
    None
}

/// Offering the same text twice within one run records at most one line:
/// the second offer leaves the queue unchanged, and a duplicate-free queue
/// holds exactly one line equal to the trimmed text afterwards.
pub proof fn lemma_enqueue_twice(lines: Seq<Seq<u8>>, text: Seq<u8>)
    requires
        distinct_lines(lines),
        trimmed(text).len() > 0,
    ensures
        enqueue_spec(enqueue_spec(lines, text), text) == enqueue_spec(lines, text),
        enqueue_spec(lines, text).contains(trimmed(text)),
        distinct_lines(enqueue_spec(lines, text)),
        forall|i: int, j: int|
            0 <= i < enqueue_spec(lines, text).len() && 0 <= j < enqueue_spec(lines, text).len()
                && enqueue_spec(lines, text)[i] == trimmed(text) && enqueue_spec(lines, text)[j]
                == trimmed(text) ==> i == j,
{
    let t = trimmed(text);
    let l1 = enqueue_spec(lines, text);
    if lines.contains(t) {
        assert(l1 == lines);
    } else {
        assert(l1 == lines.push(t));
        assert(l1[lines.len() as int] == t);
        assert(l1.contains(t));
        assert forall|i: int, j: int| 0 <= i < j < l1.len() implies l1[i] != l1[j] by {
            if j == l1.len() - 1 {
                assert(l1[i] == lines[i]);
                assert(lines[i] != t);
            }
        }
    }
    assert(enqueue_spec(l1, text) == l1);
    assert forall|i: int, j: int|
        0 <= i < l1.len() && 0 <= j < l1.len() && l1[i] == t && l1[j] == t implies i == j by {
        if i < j {
            assert(l1[i] != l1[j]);
        } else if j < i {
            assert(l1[j] != l1[i]);
        }
    }
}

} // verus!
