//! The progress/checkpoint store: the done/found/total counters, the
//! checkpoint line that makes a run resumable, and the result-record lines.

use vstd::prelude::*;

use crate::net::count_of;
use crate::outside::{md5_hex, md5_hex_of};
use crate::poc::PocResult;
use crate::text::{
    dec_of, dec_str_val, is_dec_digit, lemma_dec_of_val, push_dec_u64, split_of, split_str,
    strip_plus, trim, trim_of, valid_dec,
};

verus! {

/// The checkpoint key of an input/output pairing: two runs with different
/// pairings never share a checkpoint.
pub fn session_key(in_file: &str, out_dir: &str) -> (r: String)
    ensures
        r@ == md5_hex_of(in_file@ + out_dir@),
{
    let mut s = String::from_str(in_file);
    s.append(out_dir);
    md5_hex(s.as_str())
}

/// The persisted checkpoint: `done,found,elapsed`.
pub open spec fn checkpoint_line_of(done: u64, found: u64, elapsed: u64) -> Seq<char> {
    dec_of(done as nat) + seq![','] + dec_of(found as nat) + seq![','] + dec_of(elapsed as nat)
}

/// Renders the checkpoint for the given counters.
pub fn checkpoint_line(done: u64, found: u64, elapsed: u64) -> (r: String)
    ensures
        r@ == checkpoint_line_of(done, found, elapsed),
{
    proof {
        reveal_strlit(",");
        assert(","@ =~= seq![',']);
    }
    let mut s = String::new();
    push_dec_u64(&mut s, done);
    s.append(",");
    push_dec_u64(&mut s, found);
    s.append(",");
    push_dec_u64(&mut s, elapsed);
    proof {
        assert(s@ =~= checkpoint_line_of(done, found, elapsed));
    }
    s
}

// ---------------------------------------------------------------------------
// Splitting a written checkpoint recovers exactly its fields
// ---------------------------------------------------------------------------

proof fn lemma_split_from_char_free(s: Seq<char>, c: char, cur: Seq<char>)
    requires
        forall|i: int| 0 <= i < s.len() ==> s[i] != c,
    ensures
        crate::text::split_from(s, seq![c], cur) == seq![cur + s],
    decreases s.len(),
{
    if s.len() == 0 {
        assert(cur + s =~= cur);
    } else {
        if s.take(1) == seq![c] {
            assert(s[0] == s.take(1)[0]);
        }
        assert(forall|i: int|
            0 <= i < s.drop_first().len() ==> s.drop_first()[i] == #[trigger] s[i + 1]);
        lemma_split_from_char_free(s.drop_first(), c, cur.push(s[0]));
        assert(cur.push(s[0]) + s.drop_first() =~= cur + s);
    }
}

proof fn lemma_split_from_char_hit(a: Seq<char>, c: char, rest: Seq<char>, cur: Seq<char>)
    requires
        forall|i: int| 0 <= i < a.len() ==> a[i] != c,
    ensures
        crate::text::split_from(a + seq![c] + rest, seq![c], cur) == seq![cur + a]
            + crate::text::split_from(rest, seq![c], Seq::<char>::empty()),
    decreases a.len(),
{
    let s = a + seq![c] + rest;
    if a.len() == 0 {
        assert(s.take(1) =~= seq![c]);
        assert(s.skip(1) =~= rest);
        assert(cur + a =~= cur);
    } else {
        assert(s[0] == a[0]);
        if s.take(1) == seq![c] {
            assert(s[0] == s.take(1)[0]);
        }
        assert(s.drop_first() =~= a.drop_first() + seq![c] + rest);
        assert(forall|i: int|
            0 <= i < a.drop_first().len() ==> a.drop_first()[i] == #[trigger] a[i + 1]);
        lemma_split_from_char_hit(a.drop_first(), c, rest, cur.push(a[0]));
        assert(cur.push(a[0]) + a.drop_first() =~= cur + a);
    }
}

proof fn lemma_digits_comma_free(n: nat)
    ensures
        forall|i: int| 0 <= i < dec_of(n).len() ==> #[trigger] dec_of(n)[i] != ',',
        valid_dec(dec_of(n)),
        dec_str_val(dec_of(n)) == n,
{
    lemma_dec_of_val(n);
    assert(forall|i: int|
        0 <= i < dec_of(n).len() ==> is_dec_digit(#[trigger] dec_of(n)[i]) && dec_of(n)[i] != ','
            && dec_of(n)[i] != '+');
    assert(strip_plus(dec_of(n)) == dec_of(n));
}

/// The checkpoint round trip: splitting a written checkpoint yields exactly
/// three fields that parse back to the counters that were written.
pub proof fn lemma_checkpoint_roundtrip(done: u64, found: u64, elapsed: u64)
    ensures
        ({
            let fields = split_of(checkpoint_line_of(done, found, elapsed), seq![',']);
            &&& fields.len() == 3
            &&& valid_dec(fields[0]) && dec_str_val(fields[0]) == done
            &&& valid_dec(fields[1]) && dec_str_val(fields[1]) == found
            &&& valid_dec(fields[2]) && dec_str_val(fields[2]) == elapsed
        }),
{
    let d = dec_of(done as nat);
    let f = dec_of(found as nat);
    let e = dec_of(elapsed as nat);
    lemma_digits_comma_free(done as nat);
    lemma_digits_comma_free(found as nat);
    lemma_digits_comma_free(elapsed as nat);
    let line = checkpoint_line_of(done, found, elapsed);
    assert(line =~= d + seq![','] + (f + seq![','] + e));
    lemma_split_from_char_hit(d, ',', f + seq![','] + e, Seq::<char>::empty());
    lemma_split_from_char_hit(f, ',', e, Seq::<char>::empty());
    lemma_split_from_char_free(e, ',', Seq::<char>::empty());
    assert(Seq::<char>::empty() + d =~= d);
    assert(Seq::<char>::empty() + f =~= f);
    assert(Seq::<char>::empty() + e =~= e);
    let fields = split_of(line, seq![',']);
    assert(fields =~= seq![d] + (seq![f] + seq![e]));
    assert(fields[0] == d && fields[1] == f && fields[2] == e);
}

// ---------------------------------------------------------------------------
// The store itself
// ---------------------------------------------------------------------------

/// A line of the input list that contributes targets: neither blank nor a
/// comment once trimmed.
pub open spec fn relevant_line(l: Seq<char>) -> bool {
    trim_of(l).len() > 0 && trim_of(l)[0] != '#'
}

/// The batch size: every increment of `done` that lands on a multiple of it
/// flushes a checkpoint.
pub open spec fn checkpoint_batch() -> int {
    20
}

/// The session counters stay ordered: no more finished than expected, and
/// no more found than finished. The store's mutators preserve this; only
/// seeding from a checkpoint, which runs before the total is tallied, may
/// leave it to the tally to restore.
pub open spec fn counters_wf(d: Data) -> bool {
    d.done <= d.total && d.found <= d.done
}

/// The progress store of one run: counters seeded from a checkpoint and a
/// total computed from the input list.
pub struct Data {
    pub total: u64,
    pub done: u64,
    pub found: u64,
    pub task_id: String,
    pub create_time: i64,
}

impl Data {
    /// A fresh store with zeroed counters.
    pub fn new(task_id: String, create_time: i64) -> (r: Data)
        requires
            create_time >= 0,
        ensures
            r.total == 0,
            r.done == 0,
            r.found == 0,
            r.task_id == task_id,
            r.create_time == create_time,
            counters_wf(r),
    {
        Data { total: 0, done: 0, found: 0, task_id, create_time }
    }

    /// Adds one input line's target count to the expected total; blank
    /// lines and `#` comments count nothing.
    pub fn tally_spec_line(&mut self, line: &str)
        requires
            old(self).total <= u64::MAX - 0x100000000,
        ensures
            final(self).total == old(self).total + if relevant_line(line@) {
                count_of(trim_of(line@)) as int
            } else {
                0
            },
            final(self).done == old(self).done,
            final(self).found == old(self).found,
            final(self).task_id == old(self).task_id,
            final(self).create_time == old(self).create_time,
            counters_wf(*old(self)) ==> counters_wf(*final(self)),
    {
        let t = trim(line);
        let keep = if t.as_str().unicode_len() == 0 {
            false
        } else {
            t.as_str().get_char(0) as u32 != '#' as u32
        };
        if keep {
            proof {
                crate::net::lemma_count_of_bounds(trim_of(line@));
            }
            let n = crate::net::get_ip_seg_len(t.as_str());
            self.total = self.total + n;
        }
    }

    /// Applies one persisted checkpoint line, as a restart does: it must
    /// have at least three comma fields, and each counter is taken only if
    /// its own field parses.
    pub fn load_checkpoint_line(&mut self, line: &str)
        ensures
            ({
                let fields = split_of(line@, seq![',']);
                &&& final(self).done == if fields.len() >= 3 && valid_dec(fields[0])
                    && dec_str_val(fields[0]) <= u64::MAX {
                    dec_str_val(fields[0])
                } else {
                    old(self).done as int
                }
                &&& final(self).found == if fields.len() >= 3 && valid_dec(fields[1])
                    && dec_str_val(fields[1]) <= u64::MAX {
                    dec_str_val(fields[1])
                } else {
                    old(self).found as int
                }
            }),
            final(self).total == old(self).total,
            final(self).task_id == old(self).task_id,
            final(self).create_time == old(self).create_time,
    {
        proof {
            reveal_strlit(",");
            assert(","@ =~= seq![',']);
        }
        let fields = split_str(line, ",");
        if fields.len() >= 3 {
            proof {
                assert(fields.deep_view()[0] == fields@[0]@);
                assert(fields.deep_view()[1] == fields@[1]@);
            }
            match crate::text::parse_u64(fields[0].as_str()) {
                Some(v) => {
                    self.done = v;
                },
                None => {},
            }
            match crate::text::parse_u64(fields[1].as_str()) {
                Some(v) => {
                    self.found = v;
                },
                None => {},
            }
        }
    }

    /// One more target is finished.
    pub fn add_done(&mut self)
        requires
            old(self).done < u64::MAX,
        ensures
            final(self).done == old(self).done + 1,
            final(self).total == old(self).total,
            final(self).found == old(self).found,
            final(self).task_id == old(self).task_id,
            final(self).create_time == old(self).create_time,
    {
        self.done = self.done + 1;
    }

    /// One more vulnerability is confirmed.
    pub fn add_found(&mut self)
        requires
            old(self).found < u64::MAX,
        ensures
            final(self).found == old(self).found + 1,
            final(self).total == old(self).total,
            final(self).done == old(self).done,
            final(self).task_id == old(self).task_id,
            final(self).create_time == old(self).create_time,
    {
        self.found = self.found + 1;
    }

    /// The checkpoint to flush after a finished target, owed exactly when
    /// the done count landed on the batch boundary.
    pub fn record_state(&self, now: i64) -> (r: Option<String>)
        requires
            0 <= self.create_time <= now,
        ensures
            r is Some <==> self.done as int % checkpoint_batch() == 0,
            r matches Some(l) ==> l@ == checkpoint_line_of(
                self.done,
                self.found,
                (now - self.create_time) as u64,
            ),
    {
        if self.done % 20 == 0 {
            let elapsed = (now - self.create_time) as u64;
            Some(checkpoint_line(self.done, self.found, elapsed))
        } else {
            None
        }
    }

    pub fn get_total(&self) -> (r: u64)
        ensures
            r == self.total,
    {
        self.total
    }

    pub fn get_done(&self) -> (r: u64)
        ensures
            r == self.done,
    {
        self.done
    }

    pub fn get_found(&self) -> (r: u64)
        ensures
            r == self.found,
    {
        self.found
    }

    /// Whether every expected target has been finished.
    pub fn is_finished(&self) -> (r: bool)
        ensures
            r == (self.done >= self.total),
    {
        self.done >= self.total
    }
}

// ---------------------------------------------------------------------------
// Result-record lines
// ---------------------------------------------------------------------------

/// The record appended for one confirmed vulnerability.
pub open spec fn vulnerable_line_of(r: PocResult) -> Seq<char> {
    r.ip@ + seq![','] + dec_of(r.port as nat) + seq![','] + r.product@ + seq![','] + r.user@
        + seq![','] + r.password@ + seq![','] + r.vul_name@
}

/// Renders the record of one confirmed vulnerability.
pub fn vulnerable_line(result: &PocResult) -> (r: String)
    ensures
        r@ == vulnerable_line_of(*result),
{
    proof {
        reveal_strlit(",");
        assert(","@ =~= seq![',']);
    }
    let mut s = result.ip.clone();
    s.append(",");
    push_dec_u64(&mut s, result.port as u64);
    s.append(",");
    s.append(result.product.as_str());
    s.append(",");
    s.append(result.user.as_str());
    s.append(",");
    s.append(result.password.as_str());
    s.append(",");
    s.append(result.vul_name.as_str());
    proof {
        assert(s@ =~= vulnerable_line_of(*result));
    }
    s
}

/// The record appended for a classified host that no verifier could
/// confirm.
pub open spec fn not_vulnerable_line_of(ip: Seq<char>, port: u16, product: Seq<char>) -> Seq<
    char,
> {
    ip + seq![','] + dec_of(port as nat) + seq![','] + product
}

/// Renders the record of a classified but unconfirmed host.
pub fn not_vulnerable_line(ip: &str, port: u16, product: &str) -> (r: String)
    ensures
        r@ == not_vulnerable_line_of(ip@, port, product@),
{
    proof {
        reveal_strlit(",");
        assert(","@ =~= seq![',']);
    }
    let mut s = String::from_str(ip);
    s.append(",");
    push_dec_u64(&mut s, port as u64);
    s.append(",");
    s.append(product);
    proof {
        assert(s@ =~= not_vulnerable_line_of(ip@, port, product@));
    }
    s
}

} // verus!
