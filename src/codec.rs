//! The stored text form of a verdict.
//!
//! A verdict that ran is written as a tag, `o` when every case is correct and
//! `e` otherwise, followed by one `kind,memory,time;` record per case. A
//! program that could not be run is written as `i` followed by the reason.
//! Because the tag alone tells the coarse outcome, a query can filter on the
//! first character without reading the records.
use vstd::prelude::*;
use vstd::string::{StrSliceExecFns, StringExecFns};

use crate::decimal::{dec, lemma_parse_dec, parse_u64, parse_u64_spec, write_decimal};
use crate::model::{SimpleTestResponse, TestResponseFromStrError};
use crate::sandbox::{
    case_result_from_char, case_result_to_char, kind_char, kind_of_char, CaseResult,
    CaseResultKind, TestResponse, TestResponseView,
};

verus! {

// ---------------------------------------------------------------------------
// The format
// ---------------------------------------------------------------------------

pub open spec fn all_correct(cases: Seq<CaseResult>) -> bool {
    forall|i: int| 0 <= i < cases.len() ==> (#[trigger] cases[i]).kind == CaseResultKind::Correct
}

/// One case without its terminating `;`.
pub open spec fn record_body(c: CaseResult) -> Seq<char> {
    seq![kind_char(c.kind), ','] + dec(c.memory_usage as nat) + seq![','] + dec(c.time as nat)
}

pub open spec fn record(c: CaseResult) -> Seq<char> {
    record_body(c).push(';')
}

pub open spec fn records(cases: Seq<CaseResult>) -> Seq<char>
    decreases cases.len(),
{
    if cases.len() == 0 {
        Seq::empty()
    } else {
        record(cases[0]) + records(cases.drop_first())
    }
}

pub open spec fn tag(cases: Seq<CaseResult>) -> char {
    if all_correct(cases) {
        'o'
    } else {
        'e'
    }
}

pub open spec fn encode_spec(r: TestResponseView) -> Seq<char> {
    match r {
        TestResponseView::Completed(cases) => seq![tag(cases)] + records(cases),
        TestResponseView::InvalidProgram(reason) => seq!['i'] + reason,
    }
}

/// The position of the first `c` in `s`, if any.
pub open spec fn first_index(s: Seq<char>, c: char) -> Option<int>
    decreases s.len(),
{
    if s.len() == 0 {
        None
    } else if s[0] == c {
        Some(0)
    } else {
        match first_index(s.drop_first(), c) {
            Some(k) => Some(k + 1),
            None => None,
        }
    }
}

/// Reads `kind,memory,time`: the text up to the first comma is exactly one
/// kind character, the text between the first two commas and the text after
/// the second are unsigned numbers.
pub open spec fn parse_record(rec: Seq<char>) -> Option<CaseResult> {
    match first_index(rec, ',') {
        None => None,
        Some(k1) => {
            let kind = rec.take(k1);
            let rest = rec.skip(k1 + 1);
            match first_index(rest, ',') {
                None => None,
                Some(k2) => {
                    let memory = parse_u64_spec(rest.take(k2));
                    let time = parse_u64_spec(rest.skip(k2 + 1));
                    if kind.len() == 1 && kind_of_char(kind[0]) is Some && memory is Some
                        && time is Some {
                        Some(
                            CaseResult {
                                kind: kind_of_char(kind[0])->0,
                                memory_usage: memory->0,
                                time: time->0,
                            },
                        )
                    } else {
                        None
                    }
                },
            }
        },
    }
}

/// Reads the records that follow the tag: each ends at a `;`, the last one
/// may also end at the end of the text, and an empty text holds no record.
/// Every record must be well formed.
pub open spec fn parse_cases(s: Seq<char>) -> Option<Seq<CaseResult>>
    decreases s.len(),
{
    if s.len() == 0 {
        Some(Seq::empty())
    } else {
        match first_index(s, ';') {
            None => match parse_record(s) {
                Some(c) => Some(seq![c]),
                None => None,
            },
            Some(k) => if 0 <= k < s.len() {
                match parse_record(s.take(k)) {
                    None => None,
                    Some(c) => match parse_cases(s.skip(k + 1)) {
                        Some(cs) => Some(seq![c] + cs),
                        None => None,
                    },
                }
            } else {
                None
            },
        }
    }
}

pub open spec fn decode_spec(s: Seq<char>) -> Option<TestResponseView> {
    if s.len() == 0 {
        None
    } else if s[0] == 'o' || s[0] == 'e' {
        match parse_cases(s.drop_first()) {
            Some(cases) => Some(TestResponseView::Completed(cases)),
            None => None,
        }
    } else if s[0] == 'i' {
        Some(TestResponseView::InvalidProgram(s.drop_first()))
    } else {
        None
    }
}

pub open spec fn decode_simple_spec(s: Seq<char>) -> Option<SimpleTestResponse> {
    if s.len() == 0 {
        None
    } else if s[0] == 'o' {
        Some(SimpleTestResponse::Correct)
    } else if s[0] == 'e' {
        Some(SimpleTestResponse::Wrong)
    } else if s[0] == 'i' {
        Some(SimpleTestResponse::InvalidProgram)
    } else {
        None
    }
}

/// The coarse outcome of a verdict.
pub open spec fn classify(r: TestResponseView) -> SimpleTestResponse {
    match r {
        TestResponseView::Completed(cases) => if all_correct(cases) {
            SimpleTestResponse::Correct
        } else {
            SimpleTestResponse::Wrong
        },
        TestResponseView::InvalidProgram(_) => SimpleTestResponse::InvalidProgram,
    }
}

// ---------------------------------------------------------------------------
// Facts about the format
// ---------------------------------------------------------------------------

/// `first_index` is the position of the first `c`, given that none comes
/// before `j` and that `s[j]` is `c` (or `j` is the end).
pub proof fn lemma_first_index(s: Seq<char>, c: char, j: int)
    requires
        0 <= j <= s.len(),
        forall|i: int| 0 <= i < j ==> s[i] != c,
        j < s.len() ==> s[j] == c,
    ensures
        first_index(s, c) == (if j < s.len() {
            Some(j)
        } else {
            None::<int>
        }),
    decreases j,
{
    if j > 0 {
        let t = s.drop_first();
        assert forall|i: int| 0 <= i < j - 1 implies t[i] != c by {
            assert(t[i] == s[i + 1]);
        }
        lemma_first_index(t, c, j - 1);
    } else if s.len() > 0 {
        assert(s[0] == c);
    }
}

pub proof fn lemma_records_push(cases: Seq<CaseResult>, c: CaseResult)
    ensures
        records(cases.push(c)) == records(cases) + record(c),
    decreases cases.len(),
{
    if cases.len() == 0 {
        assert(cases.push(c).drop_first() =~= Seq::<CaseResult>::empty());
        assert(records(Seq::<CaseResult>::empty()) == Seq::<char>::empty());
        assert(records(cases.push(c)) =~= records(cases) + record(c));
    } else {
        assert(cases.push(c).drop_first() =~= cases.drop_first().push(c));
        lemma_records_push(cases.drop_first(), c);
        assert(records(cases.push(c)) =~= records(cases) + record(c));
    }
}

proof fn lemma_parse_record_body(c: CaseResult)
    ensures
        parse_record(record_body(c)) == Some(c),
        forall|i: int| 0 <= i < record_body(c).len() ==> #[trigger] record_body(c)[i] != ';',
{
    let m = dec(c.memory_usage as nat);
    let t = dec(c.time as nat);
    let body = record_body(c);
    lemma_parse_dec(c.memory_usage);
    lemma_parse_dec(c.time);
    assert(body[1] == ',');
    lemma_first_index(body, ',', 1);
    let rest = body.skip(2);
    assert(rest =~= m + seq![','] + t);
    assert forall|i: int| 0 <= i < m.len() implies rest[i] != ',' by {
        assert(rest[i] == m[i]);
    }
    assert(rest[m.len() as int] == ',');
    lemma_first_index(rest, ',', m.len() as int);
    assert(body.take(1) =~= seq![kind_char(c.kind)]);
    assert(rest.take(m.len() as int) =~= m);
    assert(rest.skip(m.len() as int + 1) =~= t);
    assert forall|i: int| 0 <= i < body.len() implies #[trigger] body[i] != ';' by {
        if i >= 2 && i < 2 + m.len() {
            assert(body[i] == m[i - 2]);
        } else if i >= 3 + m.len() {
            assert(body[i] == t[i - 3 - m.len()]);
        }
    }
}

proof fn lemma_parse_records(cases: Seq<CaseResult>)
    ensures
        parse_cases(records(cases)) == Some(cases),
    decreases cases.len(),
{
    if cases.len() == 0 {
    } else {
        let c = cases[0];
        let body = record_body(c);
        let rest = cases.drop_first();
        let s = records(cases);
        lemma_parse_record_body(c);
        lemma_parse_records(rest);
        assert(s =~= body + seq![';'] + records(rest));
        assert forall|i: int| 0 <= i < body.len() implies s[i] != ';' by {
            assert(s[i] == body[i]);
        }
        assert(s[body.len() as int] == ';');
        lemma_first_index(s, ';', body.len() as int);
        assert(s.take(body.len() as int) =~= body);
        assert(s.skip(body.len() as int + 1) =~= records(rest));
        assert(seq![c] + rest =~= cases);
    }
}

/// Reading the stored form of a verdict gives back that verdict.
pub proof fn lemma_round_trip(r: TestResponseView)
    ensures
        decode_spec(encode_spec(r)) == Some(r),
{
    match r {
        TestResponseView::Completed(cases) => {
            lemma_parse_records(cases);
            assert(encode_spec(r).drop_first() =~= records(cases));
        },
        TestResponseView::InvalidProgram(reason) => {
            assert(encode_spec(r).drop_first() =~= reason);
        },
    }
}

/// A verdict that ran is tagged `o` exactly when every case is correct, and
/// `e` otherwise.
pub proof fn lemma_tag(cases: Seq<CaseResult>)
    ensures
        encode_spec(TestResponseView::Completed(cases))[0] == 'o' <==> all_correct(cases),
        encode_spec(TestResponseView::Completed(cases))[0] == 'e' <==> !all_correct(cases),
{
}

/// The coarse outcome read from the first character of a stored verdict is
/// the coarse outcome of the verdict.
pub proof fn lemma_simple_agrees(r: TestResponseView)
    ensures
        decode_simple_spec(encode_spec(r)) == Some(classify(r)),
{
}

/// A stored verdict whose first character is none of the tags is refused.
pub proof fn lemma_unknown_tag_rejected(s: Seq<char>)
    requires
        s.len() > 0,
        s[0] != 'o' && s[0] != 'e' && s[0] != 'i',
    ensures
        decode_spec(s) is None,
        decode_simple_spec(s) is None,
{
}

/// A record with fewer than two commas makes the stored text unreadable,
/// wherever it stands among the records and whether or not a `;` ends it.
pub proof fn lemma_missing_field_rejected(
    tag: char,
    before: Seq<CaseResult>,
    rec: Seq<char>,
    rest: Seq<char>,
)
    requires
        tag == 'o' || tag == 'e',
        forall|i: int| 0 <= i < rec.len() ==> #[trigger] rec[i] != ';',
        match first_index(rec, ',') {
            None => true,
            Some(k) => first_index(rec.skip(k + 1), ',') is None,
        },
    ensures
        parse_record(rec) is None,
        decode_spec(seq![tag] + records(before) + rec + seq![';'] + rest) is None,
        rec.len() > 0 ==> decode_spec(seq![tag] + records(before) + rec) is None,
{
    lemma_rejected_record_rejects(tag, before, rec, rest);
}

/// A record whose memory or time is not an unsigned number makes the stored
/// text unreadable, wherever it stands among the records and whether or not
/// a `;` ends it.
pub proof fn lemma_bad_number_rejected(
    tag: char,
    before: Seq<CaseResult>,
    kind: char,
    memory: Seq<char>,
    time: Seq<char>,
    rest: Seq<char>,
)
    requires
        tag == 'o' || tag == 'e',
        kind != ',' && kind != ';',
        forall|i: int| 0 <= i < memory.len() ==> #[trigger] memory[i] != ',' && memory[i] != ';',
        forall|i: int| 0 <= i < time.len() ==> #[trigger] time[i] != ';',
        parse_u64_spec(memory) is None || parse_u64_spec(time) is None,
    ensures
        parse_record(seq![kind, ','] + memory + seq![','] + time) is None,
        decode_spec(
            seq![tag] + records(before) + (seq![kind, ','] + memory + seq![','] + time) + seq![';']
                + rest,
        ) is None,
        decode_spec(seq![tag] + records(before) + (seq![kind, ','] + memory + seq![','] + time))
            is None,
{
    let rec = seq![kind, ','] + memory + seq![','] + time;
    assert(rec[1] == ',');
    lemma_first_index(rec, ',', 1);
    let r2 = rec.skip(2);
    assert(r2 =~= memory + seq![','] + time);
    assert forall|i: int| 0 <= i < memory.len() implies r2[i] != ',' by {
        assert(r2[i] == memory[i]);
    }
    assert(r2[memory.len() as int] == ',');
    lemma_first_index(r2, ',', memory.len() as int);
    assert(r2.take(memory.len() as int) =~= memory);
    assert(r2.skip(memory.len() as int + 1) =~= time);
    assert forall|i: int| 0 <= i < rec.len() implies #[trigger] rec[i] != ';' by {
        if i >= 2 && i < 2 + memory.len() {
            assert(rec[i] == memory[i - 2]);
        } else if i >= 3 + memory.len() {
            assert(rec[i] == time[i - 3 - memory.len()]);
        }
    }
    lemma_rejected_record_rejects(tag, before, rec, rest);
}

/// A record that does not parse makes the whole text unreadable.
proof fn lemma_rejected_record_rejects(tag: char, before: Seq<CaseResult>, rec: Seq<char>, rest: Seq<char>)
    requires
        tag == 'o' || tag == 'e',
        forall|i: int| 0 <= i < rec.len() ==> #[trigger] rec[i] != ';',
        parse_record(rec) is None,
    ensures
        decode_spec(seq![tag] + records(before) + rec + seq![';'] + rest) is None,
        rec.len() > 0 ==> decode_spec(seq![tag] + records(before) + rec) is None,
{
    let s = rec + seq![';'] + rest;
    assert forall|i: int| 0 <= i < rec.len() implies s[i] != ';' by {
        assert(s[i] == rec[i]);
    }
    lemma_first_index(s, ';', rec.len() as int);
    assert(s.take(rec.len() as int) =~= rec);
    lemma_bad_tail_after_records(before, s);
    assert((seq![tag] + records(before) + rec + seq![';'] + rest).drop_first() =~= records(before)
        + s);
    if rec.len() > 0 {
        lemma_first_index(rec, ';', rec.len() as int);
        lemma_bad_tail_after_records(before, rec);
        assert((seq![tag] + records(before) + rec).drop_first() =~= records(before) + rec);
    }
}

/// Well-formed records do not make up for an unreadable rest.
proof fn lemma_bad_tail_after_records(before: Seq<CaseResult>, tail: Seq<char>)
    requires
        parse_cases(tail) is None,
    ensures
        parse_cases(records(before) + tail) is None,
    decreases before.len(),
{
    if before.len() == 0 {
        assert(records(before) + tail =~= tail);
    } else {
        let c = before[0];
        let body = record_body(c);
        let others = before.drop_first();
        let s = records(before) + tail;
        lemma_parse_record_body(c);
        lemma_bad_tail_after_records(others, tail);
        assert(s =~= body + seq![';'] + (records(others) + tail));
        assert forall|i: int| 0 <= i < body.len() implies s[i] != ';' by {
            assert(s[i] == body[i]);
        }
        assert(s[body.len() as int] == ';');
        lemma_first_index(s, ';', body.len() as int);
        assert(s.take(body.len() as int) =~= body);
        assert(s.skip(body.len() as int + 1) =~= records(others) + tail);
    }
}

// ---------------------------------------------------------------------------
// Encoding and decoding
// ---------------------------------------------------------------------------

/// The characters of `s`, in order.
pub fn chars_of(s: &str) -> (r: Vec<char>)
    ensures
        r@ == s@,
{
    let n = s.unicode_len();
    let mut out: Vec<char> = Vec::new();
    let mut i: usize = 0;
    while i < n
        invariant
            n == s@.len(),
            i <= n,
            out@ == s@.take(i as int),
        decreases n - i,
    {
        out.push(s.get_char(i));
        assert(out@ =~= s@.take(i + 1));
        i = i + 1;
    }
    assert(out@ =~= s@);
    out
}

/// The position of the first `c` in `v[lo..hi]`.
fn find_char(v: &Vec<char>, lo: usize, hi: usize, c: char) -> (r: Option<usize>)
    requires
        lo <= hi <= v@.len(),
    ensures
        match r {
            Some(k) => lo <= k < hi && first_index(v@.subrange(lo as int, hi as int), c) == Some(
                k - lo,
            ),
            None => first_index(v@.subrange(lo as int, hi as int), c) is None,
        },
{
    let ghost s = v@.subrange(lo as int, hi as int);
    let mut i = lo;
    while i < hi
        invariant
            lo <= i <= hi <= v@.len(),
            s == v@.subrange(lo as int, hi as int),
            forall|j: int| 0 <= j < i - lo ==> s[j] != c,
        decreases hi - i,
    {
        if v[i] == c {
            proof {
                lemma_first_index(s, c, i - lo);
            }
            return Some(i);
        }
        i = i + 1;
    }
    proof {
        lemma_first_index(s, c, s.len() as int);
    }
    None
}

/// Reads the record `v[lo..hi]`.
fn parse_record_at(v: &Vec<char>, lo: usize, hi: usize) -> (r: Option<CaseResult>)
    requires
        lo <= hi <= v@.len(),
    ensures
        r == parse_record(v@.subrange(lo as int, hi as int)),
{
    let ghost rec = v@.subrange(lo as int, hi as int);
    let k1 = match find_char(v, lo, hi, ',') {
        Some(k) => k,
        None => return None,
    };
    let ghost rest = rec.skip(k1 - lo + 1);
    assert(rest =~= v@.subrange(k1 + 1, hi as int));
    let k2 = match find_char(v, k1 + 1, hi, ',') {
        Some(k) => k,
        None => return None,
    };
    assert(rec.take(k1 - lo) =~= v@.subrange(lo as int, k1 as int));
    assert(rest.take(k2 - (k1 + 1)) =~= v@.subrange(k1 + 1, k2 as int));
    assert(rest.skip(k2 - (k1 + 1) + 1) =~= v@.subrange(k2 + 1, hi as int));
    if k1 != lo + 1 {
        return None;
    }
    let kind = match case_result_from_char(v[lo]) {
        Some(kind) => kind,
        None => return None,
    };
    let memory_usage = match parse_u64(v, k1 + 1, k2) {
        Some(m) => m,
        None => return None,
    };
    let time = match parse_u64(v, k2 + 1, hi) {
        Some(t) => t,
        None => return None,
    };
    Some(CaseResult { kind, memory_usage, time })
}

/// Reads the records in `v[start..]`.
fn parse_cases_from(v: &Vec<char>, start: usize) -> (r: Option<Vec<CaseResult>>)
    requires
        start <= v@.len(),
    ensures
        match r {
            Some(cases) => parse_cases(v@.skip(start as int)) == Some(cases@),
            None => parse_cases(v@.skip(start as int)) is None,
        },
{
    let n = v.len();
    let mut cases: Vec<CaseResult> = Vec::new();
    let mut p = start;
    while p < n
        invariant
            n == v@.len(),
            start <= p <= n,
            parse_cases(v@.skip(start as int)) == match parse_cases(v@.skip(p as int)) {
                Some(t) => Some(cases@ + t),
                None => None::<Seq<CaseResult>>,
            },
        decreases n - p,
    {
        let ghost s = v@.skip(p as int);
        assert(s =~= v@.subrange(p as int, n as int));
        match find_char(v, p, n, ';') {
            None => {
                let c = match parse_record_at(v, p, n) {
                    Some(c) => c,
                    None => return None,
                };
                let ghost before = cases@;
                cases.push(c);
                proof {
                    assert(parse_cases(s) == Some(seq![c]));
                    assert(v@.skip(n as int) =~= Seq::<char>::empty());
                    assert(before + seq![c] =~= cases@ + Seq::<CaseResult>::empty());
                }
                p = n;
            },
            Some(e) => {
                assert(s.take(e - p) =~= v@.subrange(p as int, e as int));
                let c = match parse_record_at(v, p, e) {
                    Some(c) => c,
                    None => return None,
                };
                assert(s.skip(e - p + 1) =~= v@.skip(e + 1));
                let ghost before = cases@;
                cases.push(c);
                assert(before + (seq![c] + Seq::<CaseResult>::empty()) =~= cases@ + Seq::<CaseResult>::empty());
                proof {
                    match parse_cases(v@.skip(e + 1)) {
                        Some(t) => {
                            assert(before + (seq![c] + t) =~= cases@ + t);
                        },
                        None => {},
                    }
                }
                p = e + 1;
            },
        }
    }
    assert(v@.skip(p as int) =~= Seq::<char>::empty());
    assert(cases@ + Seq::<CaseResult>::empty() =~= cases@);
    Some(cases)
}

impl TestResponse {
    /// The stored text form of this verdict.
    pub fn repr(&self) -> (r: String)
        ensures
            r@ == encode_spec(self@),
    {
        match self {
            TestResponse::Completed(cases) => {
                let mut body = String::new();
                let mut all_ok = true;
                let mut i: usize = 0;
                while i < cases.len()
                    invariant
                        i <= cases@.len(),
                        body@ == records(cases@.take(i as int)),
                        all_ok == all_correct(cases@.take(i as int)),
                    decreases cases@.len() - i,
                {
                    let case = cases[i];
                    proof {
                        reveal_strlit(",");
                        reveal_strlit(";");
                        assert(cases@.take(i + 1) =~= cases@.take(i as int).push(case));
                        lemma_records_push(cases@.take(i as int), case);
                    }
                    let ghost before = body@;
                    body.append(char_str(case_result_to_char(case.kind)));
                    body.append(",");
                    write_decimal(&mut body, case.memory_usage);
                    body.append(",");
                    write_decimal(&mut body, case.time);
                    body.append(";");
                    assert(body@ =~= before + record(case));
                    all_ok = all_ok && case.kind == CaseResultKind::Correct;
                    proof {
                        let t = cases@.take(i + 1);
                        if all_ok {
                            assert forall|j: int| 0 <= j < t.len() implies (#[trigger] t[j]).kind
                                == CaseResultKind::Correct by {
                                if j < i {
                                    assert(t[j] == cases@.take(i as int)[j]);
                                }
                            }
                        } else if case.kind != CaseResultKind::Correct {
                            assert(t[i as int] == case);
                        } else {
                            let j = choose|j: int|
                                0 <= j < i && !((#[trigger] cases@.take(i as int)[j]).kind
                                    == CaseResultKind::Correct);
                            assert(t[j] == cases@.take(i as int)[j]);
                        }
                    }
                    i = i + 1;
                }
                assert(cases@.take(i as int) =~= cases@);
                let mut out = if all_ok {
                    String::from_str("o")
                } else {
                    String::from_str("e")
                };
                proof {
                    reveal_strlit("o");
                    reveal_strlit("e");
                }
                out.append(body.as_str());
                assert(out@ =~= encode_spec(self@));
                out
            },
            TestResponse::InvalidProgram(reason) => {
                let mut out = String::from_str("i");
                proof {
                    reveal_strlit("i");
                }
                out.append(reason.as_str());
                assert(out@ =~= encode_spec(self@));
                out
            },
        }
    }

    /// Reads a verdict from its stored text form, as held in a `String`.
    pub fn try_from(value: String) -> (r: Result<TestResponse, TestResponseFromStrError>)
        ensures
            match r {
                Ok(t) => decode_spec(value@) == Some(t@),
                Err(e) => decode_spec(value@) is None && e.0@ == value@,
            },
    {
        TestResponse::from_str(value.as_str())
    }

    /// Reads a verdict from its stored text form.
    pub fn from_str(value: &str) -> (r: Result<TestResponse, TestResponseFromStrError>)
        ensures
            match r {
                Ok(t) => decode_spec(value@) == Some(t@),
                Err(e) => decode_spec(value@) is None && e.0@ == value@,
            },
    {
        match decode_chars(value) {
            Some(t) => Ok(t),
            None => Err(TestResponseFromStrError(String::from_str(value))),
        }
    }
}

fn decode_chars(value: &str) -> (r: Option<TestResponse>)
    ensures
        match r {
            Some(t) => decode_spec(value@) == Some(t@),
            None => decode_spec(value@) is None,
        },
{
    let v = chars_of(value);
    if v.len() == 0 {
        return None;
    }
    let tag = v[0];
    if tag == 'o' || tag == 'e' {
        assert(v@.skip(1) =~= v@.drop_first());
        match parse_cases_from(&v, 1) {
            Some(cases) => Some(TestResponse::Completed(cases)),
            None => None,
        }
    } else if tag == 'i' {
        let reason = value.substring_char(1, v.len());
        assert(reason@ =~= value@.drop_first());
        Some(TestResponse::InvalidProgram(String::from_str(reason)))
    } else {
        None
    }
}

/// The one-character text of a kind character.
fn char_str(c: char) -> (r: &'static str)
    requires
        kind_of_char(c) is Some,
    ensures
        r@ == seq![c],
{
    proof {
        reveal_strlit("c");
        reveal_strlit("w");
        reveal_strlit("r");
        reveal_strlit("t");
        reveal_strlit("m");
    }
    match c {
        'c' => "c",
        'w' => "w",
        'r' => "r",
        't' => "t",
        _ => "m",
    }
}

impl SimpleTestResponse {
    /// Reads the coarse outcome of a stored verdict held in a `String`, from
    /// its first character alone.
    pub fn try_from(value: String) -> (r: Result<SimpleTestResponse, TestResponseFromStrError>)
        ensures
            match r {
                Ok(s) => decode_simple_spec(value@) == Some(s),
                Err(e) => decode_simple_spec(value@) is None && e.0@ == value@,
            },
    {
        SimpleTestResponse::from_str(value.as_str())
    }

    /// Reads the coarse outcome of a stored verdict from its first character
    /// alone, without reading the records.
    pub fn from_str(value: &str) -> (r: Result<SimpleTestResponse, TestResponseFromStrError>)
        ensures
            match r {
                Ok(s) => decode_simple_spec(value@) == Some(s),
                Err(e) => decode_simple_spec(value@) is None && e.0@ == value@,
            },
    {
        if value.unicode_len() == 0 {
            return Err(TestResponseFromStrError(String::from_str(value)));
        }
        let c = value.get_char(0);
        if c == 'o' {
            Ok(SimpleTestResponse::Correct)
        } else if c == 'e' {
            Ok(SimpleTestResponse::Wrong)
        } else if c == 'i' {
            Ok(SimpleTestResponse::InvalidProgram)
        } else {
            Err(TestResponseFromStrError(String::from_str(value)))
        }
    }
}

} // verus!
