//! The bookkeeping of a batch run: which target names are taken, and how
//! many models were written, skipped for a name collision, or failed.

use vstd::prelude::*;
use crate::text::{chars_eq, chars_of, decimal, decimal_chars, push_all, push_str, string_of};

verus! {

/// The model of a `Batch`.
pub struct BatchModel {
    pub reserved: Seq<Seq<char>>,
    pub written: nat,
    pub collisions: nat,
    pub failed: nat,
}

/// The state of a batch run.
pub struct Batch {
    reserved: Vec<Vec<char>>,
    written: usize,
    collisions: usize,
    failed: usize,
}

/// The names of a list, as characters.
pub open spec fn names_view(v: Seq<Vec<char>>) -> Seq<Seq<char>> {
    v.map_values(|x: Vec<char>| x@)
}

impl View for Batch {
    type V = BatchModel;

    closed spec fn view(&self) -> BatchModel {
        BatchModel {
            reserved: names_view(self.reserved@),
            written: self.written as nat,
            collisions: self.collisions as nat,
            failed: self.failed as nat,
        }
    }
}

/// The summary line printed at the end of a run.
pub open spec fn summary_text(b: BatchModel) -> Seq<char> {
    "Done: "@ + decimal(b.written) + " file(s) written, "@ + decimal(b.collisions)
        + " skipped due to name collision, "@ + decimal(b.failed) + " file(s) failed."@
}

/// The error of a run with collisions or failures.
pub open spec fn failure_text(b: BatchModel) -> Seq<char> {
    "batch completed with "@ + decimal(b.collisions) + " collision(s) and "@ + decimal(b.failed)
        + " failure(s)"@
}

impl Batch {
    /// No target name is taken twice.
    pub closed spec fn wf(&self) -> bool {
        self@.reserved.no_duplicates()
    }

    /// A run before any model.
    pub fn new() -> (b: Batch)
        ensures
            b.wf(),
            b@ == (BatchModel { reserved: seq![], written: 0, collisions: 0, failed: 0 }),
    {
        let b = Batch { reserved: Vec::new(), written: 0, collisions: 0, failed: 0 };
        assert(b@.reserved =~= seq![]);
        b
    }

    /// The number of collisions so far.
    pub fn collisions(&self) -> (n: usize)
        ensures
            n == self@.collisions,
    {
        self.collisions
    }

    /// The number of models written so far.
    pub fn written(&self) -> (n: usize)
        ensures
            n == self@.written,
    {
        self.written
    }

    /// The number of models that failed so far.
    pub fn failed(&self) -> (n: usize)
        ensures
            n == self@.failed,
    {
        self.failed
    }

    /// Takes the target name `target` for this run. Returns `false` (and
    /// counts a collision) where an earlier result already took it.
    pub fn reserve(&mut self, target: &str) -> (ok: bool)
        requires
            old(self).wf(),
            old(self)@.collisions < usize::MAX,
        ensures
            final(self).wf(),
            ok == !old(self)@.reserved.contains(target@),
            final(self)@.reserved == (if ok {
                old(self)@.reserved.push(target@)
            } else {
                old(self)@.reserved
            }),
            final(self)@.collisions == old(self)@.collisions + (if ok {
                0nat
            } else {
                1nat
            }),
            final(self)@.written == old(self)@.written,
            final(self)@.failed == old(self)@.failed,
    {
        let t = chars_of(target);
        let ghost r = self@.reserved;
        let ghost before = self@;
        let mut i: usize = 0;
        while i < self.reserved.len()
            invariant
                before == old(self)@,
                self@ == before,
                r == before.reserved,
                t@ == target@,
                self.wf(),
                self.collisions < usize::MAX,
                r == names_view(self.reserved@),
                i <= self.reserved.len(),
                forall|j: int| 0 <= j < i ==> r[j] != t@,
            decreases self.reserved.len() - i,
        {
            assert(r[i as int] == self.reserved@[i as int]@);
            if chars_eq(&self.reserved[i], &t) {
                assert(r.contains(t@));
                self.collisions = self.collisions + 1;
                return false;
            }
            i = i + 1;
        }
        assert(!r.contains(t@));
        let ghost tv = t@;
        self.reserved.push(t);
        assert(names_view(self.reserved@) =~= r.push(tv));
        true
    }

    /// Counts a collision with a file that already exists.
    pub fn record_existing(&mut self)
        requires
            old(self).wf(),
            old(self)@.collisions < usize::MAX,
        ensures
            final(self).wf(),
            final(self)@ == (BatchModel { collisions: old(self)@.collisions + 1, ..old(self)@ }),
    {
        self.collisions = self.collisions + 1;
    }

    /// Counts a model written.
    pub fn record_written(&mut self)
        requires
            old(self).wf(),
            old(self)@.written < usize::MAX,
        ensures
            final(self).wf(),
            final(self)@ == (BatchModel { written: old(self)@.written + 1, ..old(self)@ }),
    {
        self.written = self.written + 1;
    }

    /// Counts a model that failed.
    pub fn record_failed(&mut self)
        requires
            old(self).wf(),
            old(self)@.failed < usize::MAX,
        ensures
            final(self).wf(),
            final(self)@ == (BatchModel { failed: old(self)@.failed + 1, ..old(self)@ }),
    {
        self.failed = self.failed + 1;
    }

    /// The summary line of the run.
    pub fn summary(&self) -> (s: String)
        ensures
            s@ == summary_text(self@),
    {
        let mut out = chars_of("Done: ");
        push_all(&mut out, &decimal_chars(self.written));
        push_str(&mut out, " file(s) written, ");
        push_all(&mut out, &decimal_chars(self.collisions));
        push_str(&mut out, " skipped due to name collision, ");
        push_all(&mut out, &decimal_chars(self.failed));
        push_str(&mut out, " file(s) failed.");
        string_of(&out)
    }

    /// The result of the run: success only where no collision and no
    /// failure happened.
    pub fn outcome(&self) -> (r: Result<(), String>)
        ensures
            r is Ok <==> self@.collisions == 0 && self@.failed == 0,
            r matches Err(m) ==> m@ == failure_text(self@),
    {
        if self.collisions > 0 || self.failed > 0 {
            let mut out = chars_of("batch completed with ");
            push_all(&mut out, &decimal_chars(self.collisions));
            push_str(&mut out, " collision(s) and ");
            push_all(&mut out, &decimal_chars(self.failed));
            push_str(&mut out, " failure(s)");
            return Err(string_of(&out));
        }
        Ok(())
    }
}

/// The answers of `reserve` to a sequence of names, starting from the names
/// `taken`.
pub open spec fn reserve_answers(taken: Seq<Seq<char>>, names: Seq<Seq<char>>) -> Seq<bool>
    decreases names.len(),
{
    if names.len() == 0 {
        seq![]
    } else {
        let ok = !taken.contains(names[0]);
        seq![ok] + reserve_answers(
            if ok {
                taken.push(names[0])
            } else {
                taken
            },
            names.drop_first(),
        )
    }
}

proof fn lemma_answers_len(taken: Seq<Seq<char>>, names: Seq<Seq<char>>)
    ensures
        reserve_answers(taken, names).len() == names.len(),
    decreases names.len(),
{
    if names.len() > 0 {
        let ok = !taken.contains(names[0]);
        lemma_answers_len(
            if ok {
                taken.push(names[0])
            } else {
                taken
            },
            names.drop_first(),
        );
    }
}

proof fn lemma_taken_stays_taken(taken: Seq<Seq<char>>, names: Seq<Seq<char>>, x: Seq<char>, i: int)
    requires
        taken.contains(x),
        0 <= i < names.len(),
        names[i] == x,
    ensures
        !reserve_answers(taken, names)[i],
    decreases names.len(),
{
    let ok = !taken.contains(names[0]);
    let next = if ok {
        taken.push(names[0])
    } else {
        taken
    };
    let all = reserve_answers(taken, names);
    lemma_answers_len(next, names.drop_first());
    assert(all == seq![ok] + reserve_answers(next, names.drop_first()));
    if i > 0 {
        assert(all[i] == reserve_answers(next, names.drop_first())[i - 1]);
        assert(names.drop_first()[i - 1] == x);
        assert(next.contains(x)) by {
            let k = choose|k: int| 0 <= k < taken.len() && taken[k] == x;
            assert(next[k] == x);
        }
        lemma_taken_stays_taken(next, names.drop_first(), x, i - 1);
    }
}

/// Law: within one run, a target name is granted at most once; every
/// later result that would use it is skipped.
pub proof fn law_each_target_granted_once(taken: Seq<Seq<char>>, names: Seq<Seq<char>>, i: int, j: int)
    requires
        0 <= i < j < names.len(),
        names[i] == names[j],
    ensures
        !(reserve_answers(taken, names)[i] && reserve_answers(taken, names)[j]),
    decreases names.len(),
{
    let ok = !taken.contains(names[0]);
    let next = if ok {
        taken.push(names[0])
    } else {
        taken
    };
    let all = reserve_answers(taken, names);
    lemma_answers_len(next, names.drop_first());
    assert(all == seq![ok] + reserve_answers(next, names.drop_first()));
    assert(all[j] == reserve_answers(next, names.drop_first())[j - 1]);
    assert(names.drop_first()[j - 1] == names[j]);
    if i == 0 {
        if ok {
            assert(next[taken.len() as int] == names[0]);
            lemma_taken_stays_taken(next, names.drop_first(), names[0], j - 1);
        }
    } else {
        assert(all[i] == reserve_answers(next, names.drop_first())[i - 1]);
        assert(names.drop_first()[i - 1] == names[i]);
        law_each_target_granted_once(next, names.drop_first(), i - 1, j - 1);
    }
}

/// Law: the summary gives each count in front of its own label: after a
/// run that wrote `n` models with no collision and no failure it reads
/// `Done: n file(s) written, 0 skipped due to name collision, 0 file(s)
/// failed.`; with `k` collisions and nothing else, `k` stands before
/// `skipped due to name collision`; with `m` failures and nothing else,
/// `m` stands before `file(s) failed.`.
pub proof fn law_summary_counts_in_place(b: BatchModel)
    ensures
        b.collisions == 0 && b.failed == 0 ==> summary_text(b) == "Done: "@ + decimal(b.written)
            + " file(s) written, 0 skipped due to name collision, 0 file(s) failed."@,
        b.written == 0 && b.failed == 0 ==> summary_text(b) == "Done: 0 file(s) written, "@
            + decimal(b.collisions) + " skipped due to name collision, 0 file(s) failed."@,
        b.written == 0 && b.collisions == 0 ==> summary_text(b)
            == "Done: 0 file(s) written, 0 skipped due to name collision, "@ + decimal(b.failed)
            + " file(s) failed."@,
{
    reveal_strlit("Done: ");
    reveal_strlit(" file(s) written, ");
    reveal_strlit(" skipped due to name collision, ");
    reveal_strlit(" file(s) failed.");
    reveal_strlit(" file(s) written, 0 skipped due to name collision, 0 file(s) failed.");
    reveal_strlit("Done: 0 file(s) written, ");
    reveal_strlit(" skipped due to name collision, 0 file(s) failed.");
    reveal_strlit("Done: 0 file(s) written, 0 skipped due to name collision, ");
    assert(decimal(0) == seq!['0']);
    if b.collisions == 0 && b.failed == 0 {
        assert(summary_text(b) =~= "Done: "@ + decimal(b.written)
            + " file(s) written, 0 skipped due to name collision, 0 file(s) failed."@);
    }
    if b.written == 0 && b.failed == 0 {
        assert(summary_text(b) =~= "Done: 0 file(s) written, "@ + decimal(b.collisions)
            + " skipped due to name collision, 0 file(s) failed."@);
    }
    if b.written == 0 && b.collisions == 0 {
        assert(summary_text(b) =~= "Done: 0 file(s) written, 0 skipped due to name collision, "@
            + decimal(b.failed) + " file(s) failed."@);
    }
}

/// Law: recording a written model raises the count in front of
/// `file(s) written` by one and leaves the rest of the summary as it was.
pub proof fn law_written_count_in_summary(b: BatchModel)
    ensures
        summary_text(BatchModel { written: b.written + 1, ..b }) == "Done: "@ + decimal(
            b.written + 1,
        ) + summary_text(b).skip(("Done: "@ + decimal(b.written)).len() as int),
{
    reveal_strlit("Done: ");
    let rest = " file(s) written, "@ + decimal(b.collisions) + " skipped due to name collision, "@
        + decimal(b.failed) + " file(s) failed."@;
    assert(summary_text(b) =~= ("Done: "@ + decimal(b.written)) + rest);
    assert(summary_text(b).skip(("Done: "@ + decimal(b.written)).len() as int) =~= rest);
    assert(summary_text(BatchModel { written: b.written + 1, ..b }) =~= "Done: "@ + decimal(
        b.written + 1,
    ) + rest);
}

} // verus!
