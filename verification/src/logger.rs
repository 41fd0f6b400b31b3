//! The execution logger: one plain-text timing line and one structured
//! record per run.
//!
//! Both artifacts are append-only.  Each log is modelled by the text it
//! holds; an append extends that text and returns exactly the bytes the
//! caller must write, in append mode, to the durable file.  Nothing here
//! ever removes or rewrites what an earlier append produced.

use vstd::prelude::*;
use vstd::string::StrSliceExecFns;
use vstd::string::StringExecFns;

use crate::jsontext::chars_to_string;
use crate::jsontext::esc_seq;
use crate::jsontext::escape_json;
use crate::model::ExecutionRecord;
use crate::numtext::dec_pad;
use crate::numtext::dec_rep;
use crate::numtext::is_digit;
use crate::numtext::lemma_dec_pad_digits;
use crate::numtext::lemma_dec_rep_digits;
use crate::numtext::lemma_pow10_six;
use crate::numtext::lemma_seq_to_num_dec_pad;
use crate::numtext::lemma_seq_to_num_dec_rep;
use crate::numtext::parse_digits;
use crate::numtext::push_dec_pad;
use crate::numtext::push_dec_rep;
use crate::numtext::seq_to_num;
use crate::provenance::resolve_commit;
use crate::provenance::sentinel_commit;

verus! {

/// A duration of `m` microseconds printed as seconds with exactly six
/// digits after the decimal point.
pub open spec fn timing_line(m: nat) -> Seq<char> {
    dec_rep(m / 1000000) + seq!['.'] + dec_pad(m, 6)
}

/// A full timing-log entry: the timing line, newline-terminated.
pub open spec fn plain_line(m: nat) -> Seq<char> {
    timing_line(m) + seq!['\n']
}

/// The number a well-shaped timing line denotes, in microseconds: the
/// digits before the dot are seconds, the six after it are the fraction.
pub open spec fn line_value(s: Seq<char>) -> nat
    recommends
        s.len() >= 8,
{
    seq_to_num(s.subrange(0, s.len() - 7)) * 1000000 + seq_to_num(
        s.subrange(s.len() - 6, s.len() as int),
    )
}

/// How many newlines a text holds; each append adds exactly one.
pub open spec fn newline_count(s: Seq<char>) -> nat
    decreases s.len(),
{
    if s.len() == 0 {
        0
    } else {
        newline_count(s.drop_last()) + if s.last() == '\n' {
            1nat
        } else {
            0nat
        }
    }
}

/// The characters after the last newline of `s` (all of `s` if none).
pub open spec fn after_last_newline(s: Seq<char>) -> Seq<char>
    decreases s.len(),
{
    if s.len() == 0 {
        Seq::empty()
    } else if s.last() == '\n' {
        Seq::empty()
    } else {
        after_last_newline(s.drop_last()) + seq![s.last()]
    }
}

/// The last line of a newline-terminated text.
pub open spec fn last_line(s: Seq<char>) -> Seq<char>
    recommends
        s.len() > 0 && s.last() == '\n',
{
    after_last_newline(s.drop_last())
}

/// Newlines in a concatenation are the newlines of the parts.
pub proof fn lemma_newline_count_concat(a: Seq<char>, b: Seq<char>)
    ensures
        newline_count(a + b) == newline_count(a) + newline_count(b),
    decreases b.len(),
{
    if b.len() == 0 {
        assert(a + b =~= a);
    } else {
        lemma_newline_count_concat(a, b.drop_last());
        assert((a + b).drop_last() =~= a + b.drop_last());
        assert((a + b).last() == b.last());
    }
}

/// A text without newlines has newline count zero.
pub proof fn lemma_newline_count_zero(s: Seq<char>)
    requires
        forall|i: int| 0 <= i < s.len() ==> s[i] != '\n',
    ensures
        newline_count(s) == 0,
    decreases s.len(),
{
    if s.len() > 0 {
        assert(forall|i: int| 0 <= i < s.drop_last().len() ==> s.drop_last()[i] != '\n');
        lemma_newline_count_zero(s.drop_last());
    }
}

/// Appending newline-free text `t` to a line-structured text leaves `t`
/// as the tail after the last newline.
pub proof fn lemma_after_last_newline_concat(a: Seq<char>, t: Seq<char>)
    requires
        a.len() == 0 || a.last() == '\n',
        forall|i: int| 0 <= i < t.len() ==> t[i] != '\n',
    ensures
        after_last_newline(a + t) == t,
    decreases t.len(),
{
    if t.len() == 0 {
        assert(a + t =~= a);
        assert(after_last_newline(a + t) =~= t);
    } else {
        assert(forall|i: int| 0 <= i < t.drop_last().len() ==> t.drop_last()[i] != '\n');
        lemma_after_last_newline_concat(a, t.drop_last());
        assert((a + t).drop_last() =~= a + t.drop_last());
        assert((a + t).last() == t.last());
        assert(after_last_newline(a + t) =~= t);
    }
}

/// What holds of a timing line position by position, given the duration it
/// was printed from.
pub proof fn lemma_timing_line_match(s: Seq<char>, m: u64)
    requires
        s == timing_line(m as nat),
    ensures
        s.len() >= 8,
        forall|k: int| 0 <= k < s.len() - 7 ==> is_digit(#[trigger] s[k]),
        s[s.len() - 7] == '.',
        forall|k: int| s.len() - 6 <= k < s.len() ==> is_digit(#[trigger] s[k]),
        forall|k: int| 0 <= k < s.len() ==> #[trigger] s[k] != '\n',
        seq_to_num(s.subrange(0, s.len() - 7)) == m as nat / 1000000,
        seq_to_num(s.subrange(s.len() - 6, s.len() as int)) == m as nat % 1000000,
        line_value(s) == m,
{
    let mm = m as nat;
    lemma_dec_rep_digits(mm / 1000000);
    lemma_dec_pad_digits(mm, 6);
    assert(s.subrange(0, s.len() - 7) =~= dec_rep(mm / 1000000));
    assert(s.subrange(s.len() - 6, s.len() as int) =~= dec_pad(mm, 6));
    lemma_seq_to_num_dec_rep(mm / 1000000);
    lemma_seq_to_num_dec_pad(mm, 6);
    lemma_pow10_six();
    assert(s[s.len() - 7] == '.');
    assert forall|k: int| 0 <= k < s.len() implies #[trigger] s[k] != '\n' by {
        if k < s.len() - 7 {
            assert(s[k] == dec_rep(mm / 1000000)[k]);
            assert(is_digit(s[k]));
        } else if k == s.len() - 7 {
        } else {
            assert(is_digit(s[k]));
        }
    }
    vstd::arithmetic::div_mod::lemma_fundamental_div_mod(mm as int, 1000000);
}

/// The plain-text timing log, modelled by the text it holds.
pub struct PlainTimingLog {
    pub content: String,
}

impl PlainTimingLog {
    /// The log is line-structured: empty, or ending in a newline.
    pub open spec fn wf(self) -> bool {
        self.content@.len() == 0 || self.content@.last() == '\n'
    }

    /// An empty log.
    pub fn new() -> (r: Self)
        ensures
            r.content@ == Seq::<char>::empty(),
            r.wf(),
    {
        PlainTimingLog { content: String::new() }
    }

    /// Appends one timing line for a duration of `micros` microseconds and
    /// returns exactly the bytes appended.  Prior content is untouched.
    pub fn append_plain_timing(&mut self, micros: u64) -> (line: String)
        ensures
            line@ == plain_line(micros as nat),
            final(self).content@ == old(self).content@ + plain_line(micros as nat),
            final(self).wf(),
    {
        let line = format_plain_line(micros);
        self.content.append(line.as_str());
        proof {
            assert(final(self).content@.last() == '\n');
        }
        line
    }
}

/// The timing line for `micros` microseconds, without the newline.
pub fn format_timing_line(micros: u64) -> (r: String)
    ensures
        r@ == timing_line(micros as nat),
{
    let mut out: Vec<char> = Vec::new();
    push_dec_rep(micros / 1000000, &mut out);
    out.push('.');
    push_dec_pad(micros, 6, &mut out);
    proof {
        assert(out@ =~= timing_line(micros as nat));
    }
    chars_to_string(&out)
}

/// The full newline-terminated timing-log entry for `micros` microseconds.
pub fn format_plain_line(micros: u64) -> (r: String)
    ensures
        r@ == plain_line(micros as nat),
{
    let mut out: Vec<char> = Vec::new();
    push_dec_rep(micros / 1000000, &mut out);
    out.push('.');
    push_dec_pad(micros, 6, &mut out);
    out.push('\n');
    proof {
        assert(out@ =~= plain_line(micros as nat));
    }
    chars_to_string(&out)
}

/// The shape of a timing line: some digits, a dot, six digits.
pub open spec fn timing_shape(s: Seq<char>) -> bool {
    &&& s.len() >= 8
    &&& s[s.len() - 7] == '.'
    &&& forall|k: int| 0 <= k < s.len() && k != s.len() - 7 ==> is_digit(#[trigger] s[k])
}

/// Reads a timing line back into microseconds: the digits before the dot
/// are seconds, the six after it the fraction.  Succeeds on exactly the
/// well-shaped lines whose value fits, so whenever the line is the printed
/// form of some duration, that duration is returned.
pub fn parse_timing_line(line: &str) -> (r: Option<u64>)
    ensures
        r is Some <==> timing_shape(line@) && line_value(line@) <= u64::MAX,
        r matches Some(v) ==> v as nat == line_value(line@),
        forall|m: u64| line@ == timing_line(m as nat) ==> r == Some(m),
{
    let n = line.unicode_len();
    if n < 8 {
        proof {
            assert forall|m: u64| line@ == timing_line(m as nat) implies false by {
                lemma_timing_line_match(line@, m);
            }
        }
        return None;
    }
    let dot = line.get_char(n - 7);
    if dot != '.' {
        proof {
            assert forall|m: u64| line@ == timing_line(m as nat) implies false by {
                lemma_timing_line_match(line@, m);
            }
        }
        return None;
    }
    let wh = parse_digits(line, 0, n - 7);
    let fr = parse_digits(line, n - 6, n);
    match (wh, fr) {
        (Some(whole), Some(frac)) => {
            proof {
                vstd::arithmetic::div_mod::lemma_fundamental_div_mod(
                    (u64::MAX - frac) as int,
                    1000000,
                );
            }
            if whole > (u64::MAX - frac) / 1000000 {
                proof {
                    assert forall|m: u64| line@ == timing_line(m as nat) implies false by {
                        lemma_timing_line_match(line@, m);
                        vstd::arithmetic::div_mod::lemma_fundamental_div_mod(
                            m as int,
                            1000000,
                        );
                    }
                }
                None
            } else {
                let v = whole * 1000000 + frac;
                proof {
                    assert forall|m: u64| line@ == timing_line(m as nat) implies v == m by {
                        lemma_timing_line_match(line@, m);
                        vstd::arithmetic::div_mod::lemma_fundamental_div_mod(
                            m as int,
                            1000000,
                        );
                    }
                }
                Some(v)
            }
        },
        _ => {
            proof {
                assert forall|m: u64| line@ == timing_line(m as nat) implies false by {
                    lemma_timing_line_match(line@, m);
                    vstd::arithmetic::div_mod::lemma_fundamental_div_mod(m as int, 1000000);
                    lemma_pow10_six();
                }
            }
            None
        },
    }
}

/// Appending to the plain timing log never removes or rewrites a prior
/// byte, and raises the line count by exactly one.
pub proof fn lemma_plain_append_monotonic(content: Seq<char>, m: u64)
    ensures
        (content + plain_line(m as nat)).subrange(0, content.len() as int) == content,
        newline_count(content + plain_line(m as nat)) == newline_count(content) + 1,
{
    let line = plain_line(m as nat);
    assert((content + line).subrange(0, content.len() as int) =~= content);
    lemma_newline_count_concat(content, line);
    lemma_timing_line_match(timing_line(m as nat), m);
    lemma_newline_count_zero(timing_line(m as nat));
    assert(line.drop_last() =~= timing_line(m as nat));
    assert(newline_count(line) == 1);
}

/// After appending a timing line for `m` microseconds, the log's last line
/// is that timing line, and it denotes `m` again.
pub proof fn lemma_plain_append_last_line(content: Seq<char>, m: u64)
    requires
        content.len() == 0 || content.last() == '\n',
    ensures
        last_line(content + plain_line(m as nat)) == timing_line(m as nat),
        line_value(timing_line(m as nat)) == m,
{
    let t = timing_line(m as nat);
    lemma_timing_line_match(t, m);
    assert((content + plain_line(m as nat)).drop_last() =~= content + t);
    lemma_after_last_newline_concat(content, t);
}

/// One execution record as a JSON object: timestamp, duration in seconds
/// with six-digit precision, and provenance.
pub open spec fn record_json(ts: Seq<char>, micros: nat, commit: Seq<char>) -> Seq<char> {
    "{\"timestamp\":\""@ + esc_seq(ts) + "\",\"execution_time\":"@ + timing_line(micros)
        + ",\"commit_hash\":\""@ + esc_seq(commit) + "\"}"@
}

/// A full record-log entry: the JSON object, newline-terminated.
pub open spec fn record_line(rec: ExecutionRecord) -> Seq<char> {
    record_json(rec.timestamp@, rec.execution_micros as nat, rec.commit_hash@) + seq!['\n']
}

/// Serializes one execution record to its JSON object form.
pub fn serialize_execution_record(rec: &ExecutionRecord) -> (r: String)
    ensures
        r@ == record_json(rec.timestamp@, rec.execution_micros as nat, rec.commit_hash@),
{
    let mut out = String::new();
    out.append("{\"timestamp\":\"");
    let ts = escape_json(rec.timestamp.as_str());
    out.append(ts.as_str());
    out.append("\",\"execution_time\":");
    let secs = format_timing_line(rec.execution_micros);
    out.append(secs.as_str());
    out.append(",\"commit_hash\":\"");
    let commit = escape_json(rec.commit_hash.as_str());
    out.append(commit.as_str());
    out.append("\"}");
    out
}

/// The structured execution log: one JSON record per line, append-only.
pub struct ExecutionLog {
    pub content: String,
}

impl ExecutionLog {
    /// The log is line-structured: empty, or ending in a newline.
    pub open spec fn wf(self) -> bool {
        self.content@.len() == 0 || self.content@.last() == '\n'
    }

    /// An empty log.
    pub fn new() -> (r: Self)
        ensures
            r.content@ == Seq::<char>::empty(),
            r.wf(),
    {
        ExecutionLog { content: String::new() }
    }

    /// Appends one serialized record and returns exactly the bytes
    /// appended.  Prior content is untouched.
    pub fn append_execution_record(&mut self, rec: &ExecutionRecord) -> (line: String)
        ensures
            line@ == record_line(*rec),
            final(self).content@ == old(self).content@ + record_line(*rec),
            final(self).wf(),
    {
        let mut line = serialize_execution_record(rec);
        line.append("\n");
        proof {
            reveal_strlit("\n");
            assert("\n"@ =~= seq!['\n']);
            assert(line@ =~= record_line(*rec));
        }
        self.content.append(line.as_str());
        proof {
            assert(final(self).content@.last() == '\n');
        }
        line
    }
}

/// Relies on `chrono::Local::now` and `DateTime`'s `Display` impl, which
/// always writes the local date and time, a space, and the UTC offset: the
/// result depends on the clock, but is never empty.
#[verifier::external_body]
fn current_timestamp() -> (r: String)
    ensures
        r@.len() > 0,
{
    chrono::Local::now().to_string()
}

/// Builds the record for one run from an already-taken timestamp, the
/// measured duration, and the commit resolver's outcome.
pub fn execution_record_at(
    timestamp: String,
    execution_micros: u64,
    resolved_commit: Option<String>,
) -> (r: ExecutionRecord)
    ensures
        r.timestamp@ == timestamp@,
        r.execution_micros == execution_micros,
        match resolved_commit {
            Some(s) => r.commit_hash@ == if s@.len() > 0 {
                s@
            } else {
                sentinel_commit()
            },
            None => r.commit_hash@ == sentinel_commit(),
        },
        r.well_formed(),
{
    ExecutionRecord { timestamp, execution_micros, commit_hash: resolve_commit(resolved_commit) }
}

/// Builds the record for one run, stamping it with the current wall-clock
/// time.  The timestamp depends on the clock; everything else is as in
/// `execution_record_at`.
pub fn make_execution_record(execution_micros: u64, resolved_commit: Option<String>) -> (r:
    ExecutionRecord)
    ensures
        r.timestamp@.len() > 0,
        r.execution_micros == execution_micros,
        match resolved_commit {
            Some(s) => r.commit_hash@ == if s@.len() > 0 {
                s@
            } else {
                sentinel_commit()
            },
            None => r.commit_hash@ == sentinel_commit(),
        },
        r.well_formed(),
{
    let ts = current_timestamp();
    execution_record_at(ts, execution_micros, resolved_commit)
}

} // verus!
