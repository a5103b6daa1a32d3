//! The session store: the single shared, append-only text and the rule
//! that admits or rejects a contribution. All mutation of the shared text
//! goes through [`SessionStore::append`], so the order in which callers
//! reach it is the total order of the session.

use vstd::prelude::*;

use crate::text::{copy_bytes, is_space, space_byte, trim, trimmed};
use crate::text::{lemma_prefix_transitive, lemma_trimmed_empty_iff_all_space};

verus! {

/// The session mode, fixed at deployment time: contributions are either
/// single characters or whole words.
#[derive(Clone, Copy, PartialEq, Eq, Structural, Debug)]
pub enum Mode {
    /// Each contribution is one non-whitespace byte.
    Char,
    /// Each contribution is a word: a submission that is non-empty after
    /// trimming.
    Word,
}

/// The separator placed between two words of the shared text in word mode.
pub const SEPARATOR: u8 = 32;

/// Whether a submission is a valid contribution under `mode`: a single
/// non-whitespace byte in character mode, or non-empty after trimming in
/// word mode. Empty or whitespace-only submissions are never valid.
pub open spec fn valid_contribution(mode: Mode, s: Seq<u8>) -> bool {
    match mode {
        Mode::Char => s.len() == 1 && !is_space(s[0]),
        Mode::Word => trimmed(s).len() > 0,
    }
}

/// The bytes an accepted submission contributes: the submission itself in
/// character mode, its trimmed form in word mode.
pub open spec fn payload(mode: Mode, s: Seq<u8>) -> Seq<u8> {
    match mode {
        Mode::Char => s,
        Mode::Word => trimmed(s),
    }
}

/// The shared text after appending the accepted submission `s` to `t`: the
/// payload, preceded by a separator when a word joins a non-empty text.
pub open spec fn extended(mode: Mode, t: Seq<u8>, s: Seq<u8>) -> Seq<u8> {
    if mode == Mode::Word && t.len() > 0 {
        t + seq![SEPARATOR] + payload(mode, s)
    } else {
        t + payload(mode, s)
    }
}

/// The shared text after a whole sequence of submissions has been offered
/// in order: valid ones are appended, invalid ones leave the text as it
/// was.
pub open spec fn apply_all(mode: Mode, t: Seq<u8>, subs: Seq<Seq<u8>>) -> Seq<u8>
    decreases subs.len(),
{
    if subs.len() == 0 {
        t
    } else {
        let t1 = if valid_contribution(mode, subs[0]) {
            extended(mode, t, subs[0])
        } else {
            t
        };
        apply_all(mode, t1, subs.drop_first())
    }
}

/// The flat block of bytes that a sequence of valid submissions lays down:
/// each payload once, in submission order, separated as the mode demands.
/// `occupied` says whether text already precedes the block.
pub open spec fn joined(mode: Mode, occupied: bool, subs: Seq<Seq<u8>>) -> Seq<u8>
    decreases subs.len(),
{
    if subs.len() == 0 {
        Seq::<u8>::empty()
    } else {
        let sep: Seq<u8> = if mode == Mode::Word && occupied {
            seq![SEPARATOR]
        } else {
            Seq::<u8>::empty()
        };
        sep + payload(mode, subs[0]) + joined(mode, true, subs.drop_first())
    }
}

/// The one shared mutable text of a session, together with the active
/// mode. Exactly one `append` completes at a time, so the text only ever
/// grows by whole contributions.
pub struct SessionStore {
    text: Vec<u8>,
    mode: Mode,
}

impl SessionStore {
    /// The current shared text, as a sequence of bytes.
    pub closed spec fn text(self) -> Seq<u8> {
        self.text@
    }

    /// The active session mode.
    pub closed spec fn mode(self) -> Mode {
        self.mode
    }

    /// A fresh session: empty shared text, the given mode.
    pub fn new(mode: Mode) -> (s: SessionStore)
        ensures
            s.text() == Seq::<u8>::empty(),
            s.mode() == mode,
    {
        let s = SessionStore { text: Vec::new(), mode };
        proof {
            assert(s.text@ =~= Seq::<u8>::empty());
        }
        s
    }

    /// The present shared text, read without mutation: the snapshot sent
    /// to a newly accepted participant.
    pub fn current(&self) -> (snap: Vec<u8>)
        ensures
            snap@ == self.text(),
    {
        copy_bytes(&self.text)
    }

    /// Validates a submission against the active mode and, when it passes,
    /// appends it to the shared text and returns the new full snapshot.
    /// An invalid submission is discarded: the text is untouched and no
    /// snapshot is produced. In either case the old text is a prefix of
    /// the new one — the shared text never shrinks and never diverges.
    pub fn append(&mut self, submission: &Vec<u8>) -> (snap: Option<Vec<u8>>)
        ensures
            final(self).mode() == old(self).mode(),
            valid_contribution(old(self).mode(), submission@) ==> {
                &&& final(self).text() == extended(old(self).mode(), old(self).text(), submission@)
                &&& (snap matches Some(v) && v@ == final(self).text())
            },
            !valid_contribution(old(self).mode(), submission@) ==> {
                &&& *final(self) == *old(self)
                &&& snap is None
            },
            old(self).text().is_prefix_of(final(self).text()),
    {
        let accepted: bool = match self.mode {
            Mode::Char => {
                if submission.len() == 1 && !space_byte(submission[0]) {
                    self.text.push(submission[0]);
                    proof {
                        assert(self.text@ =~= extended(Mode::Char, old(self).text@, submission@));
                    }
                    true
                } else {
                    false
                }
            },
            Mode::Word => {
                let word = trim(submission);
                if word.len() > 0 {
                    if self.text.len() > 0 {
                        self.text.push(SEPARATOR);
                    }
                    push_all(&mut self.text, &word);
                    proof {
                        assert(self.text@ =~= extended(Mode::Word, old(self).text@, submission@));
                    }
                    true
                } else {
                    proof {
                        lemma_trimmed_empty_iff_all_space(submission@);
                    }
                    false
                }
            },
        };
        proof {
            assert(old(self).text@.is_prefix_of(self.text@)) by {
                assert(old(self).text@ =~= self.text@.subrange(0, old(self).text@.len() as int));
            }
        }
        if accepted {
            Some(copy_bytes(&self.text))
        } else {
            None
        }
    }
}

/// Appends all bytes of `src` to `dst`.
fn push_all(dst: &mut Vec<u8>, src: &Vec<u8>)
    ensures
        final(dst)@ == old(dst)@ + src@,
{
    let n = src.len();
    let mut i: usize = 0;
    while i < n
        invariant
            i <= n,
            n == src@.len(),
            dst@ == old(dst)@ + src@.subrange(0, i as int),
        decreases n - i,
    {
        dst.push(src[i]);
        proof {
            assert(old(dst)@ + src@.subrange(0, i as int) + seq![src@[i as int]] =~= old(dst)@
                + src@.subrange(0, i + 1));
        }
        i = i + 1;
    }
    proof {
        assert(src@.subrange(0, n as int) =~= src@);
    }
}

/// An accepted contribution always adds at least one byte.
proof fn lemma_payload_nonempty(mode: Mode, s: Seq<u8>)
    requires
        valid_contribution(mode, s),
    ensures
        payload(mode, s).len() > 0,
{
}

/// Serialized append: when every submission in `subs` is a valid
/// contribution, offering them in order lays each payload down exactly
/// once, in that order, as one contiguous block after the prior text —
/// no contribution is lost, duplicated, or interleaved with another.
pub proof fn lemma_serialized_append(mode: Mode, t: Seq<u8>, subs: Seq<Seq<u8>>)
    requires
        forall|k: int| 0 <= k < subs.len() ==> valid_contribution(mode, #[trigger] subs[k]),
    ensures
        apply_all(mode, t, subs) == t + joined(mode, t.len() > 0, subs),
    decreases subs.len(),
{
    if subs.len() == 0 {
        assert(apply_all(mode, t, subs) =~= t + joined(mode, t.len() > 0, subs));
    } else {
        let s0 = subs[0];
        assert(valid_contribution(mode, s0));
        lemma_payload_nonempty(mode, s0);
        let t1 = extended(mode, t, s0);
        assert(forall|k: int|
            0 <= k < subs.drop_first().len() ==> valid_contribution(
                mode,
                #[trigger] subs.drop_first()[k],
            )) by {
            assert(forall|k: int|
                0 <= k < subs.drop_first().len() ==> subs.drop_first()[k] == subs[k + 1]);
        }
        lemma_serialized_append(mode, t1, subs.drop_first());
        assert(t1.len() > 0);
        assert(t1 + joined(mode, true, subs.drop_first()) =~= t + joined(
            mode,
            t.len() > 0,
            subs,
        ));
    }
}

/// The shared text only grows: whatever submissions arrive, the text
/// before them is a prefix of the text after them.
pub proof fn lemma_apply_all_extends(mode: Mode, t: Seq<u8>, subs: Seq<Seq<u8>>)
    ensures
        t.is_prefix_of(apply_all(mode, t, subs)),
    decreases subs.len(),
{
    if subs.len() == 0 {
        assert(t =~= apply_all(mode, t, subs).subrange(0, t.len() as int));
    } else {
        let t1 = if valid_contribution(mode, subs[0]) {
            extended(mode, t, subs[0])
        } else {
            t
        };
        assert(t.is_prefix_of(t1)) by {
            assert(t =~= t1.subrange(0, t.len() as int));
        }
        lemma_apply_all_extends(mode, t1, subs.drop_first());
        lemma_prefix_transitive(t, t1, apply_all(mode, t1, subs.drop_first()));
    }
}

/// Applying submissions in two batches is the same as applying them in
/// one: the store has no memory beyond the text itself.
proof fn lemma_apply_all_split(mode: Mode, t: Seq<u8>, subs: Seq<Seq<u8>>, k: int)
    requires
        0 <= k <= subs.len(),
    ensures
        apply_all(mode, t, subs) == apply_all(
            mode,
            apply_all(mode, t, subs.take(k)),
            subs.skip(k),
        ),
    decreases k,
{
    if k == 0 {
        assert(subs.take(0) =~= Seq::<Seq<u8>>::empty());
        assert(subs.skip(0) =~= subs);
    } else {
        let t1 = if valid_contribution(mode, subs[0]) {
            extended(mode, t, subs[0])
        } else {
            t
        };
        lemma_apply_all_split(mode, t1, subs.drop_first(), k - 1);
        assert(subs.take(k).drop_first() =~= subs.drop_first().take(k - 1));
        assert(subs.drop_first().skip(k - 1) =~= subs.skip(k));
        assert(subs.take(k)[0] == subs[0]);
        assert(apply_all(mode, t, subs.take(k)) == apply_all(
            mode,
            t1,
            subs.drop_first().take(k - 1),
        ));
    }
}

/// Monotonic growth across the whole session: the snapshot after the
/// first `k` submissions is a prefix of the snapshot after all of them —
/// successive snapshots never shrink and never diverge in their shared
/// prefix.
pub proof fn lemma_snapshots_monotonic(mode: Mode, t: Seq<u8>, subs: Seq<Seq<u8>>, k: int)
    requires
        0 <= k <= subs.len(),
    ensures
        apply_all(mode, t, subs.take(k)).is_prefix_of(apply_all(mode, t, subs)),
{
    lemma_apply_all_split(mode, t, subs, k);
    lemma_apply_all_extends(mode, apply_all(mode, t, subs.take(k)), subs.skip(k));
}

} // verus!
