use vstd::prelude::*;
use vstd::string::{StrSliceExecFns, StringExecFns};

use crate::record::{RecordView, TimerRecord};
use crate::state::{AppState, StateView};
use crate::timer::{Timer, TimerView};

verus! {

/// Relies on std's `String::push`: appends exactly the given character at
/// the end of the string.
pub assume_specification[ String::push ](s: &mut String, c: char)
    ensures
        final(s)@ == old(s)@.push(c),
;

/// The decimal digit character for a value below ten.
pub open spec fn spec_digit_char(d: nat) -> char {
    if d == 0 {
        '0'
    } else if d == 1 {
        '1'
    } else if d == 2 {
        '2'
    } else if d == 3 {
        '3'
    } else if d == 4 {
        '4'
    } else if d == 5 {
        '5'
    } else if d == 6 {
        '6'
    } else if d == 7 {
        '7'
    } else if d == 8 {
        '8'
    } else {
        '9'
    }
}

/// The decimal digits of `n`, most significant first, no leading zeros.
pub open spec fn spec_digits(n: nat) -> Seq<char>
    decreases n,
{
    if n < 10 {
        seq![spec_digit_char(n)]
    } else {
        spec_digits(n / 10).push(spec_digit_char(n % 10))
    }
}

/// The canonical decimal text of an integer: a leading minus sign for
/// negative values.
pub open spec fn spec_int_chars(n: int) -> Seq<char> {
    if n < 0 {
        seq!['-'] + spec_digits((-n) as nat)
    } else {
        spec_digits(n as nat)
    }
}

/// The lower-case hexadecimal digit character for a value below sixteen.
pub open spec fn spec_hex_digit_char(d: nat) -> char {
    if d == 0 {
        '0'
    } else if d == 1 {
        '1'
    } else if d == 2 {
        '2'
    } else if d == 3 {
        '3'
    } else if d == 4 {
        '4'
    } else if d == 5 {
        '5'
    } else if d == 6 {
        '6'
    } else if d == 7 {
        '7'
    } else if d == 8 {
        '8'
    } else if d == 9 {
        '9'
    } else if d == 10 {
        'a'
    } else if d == 11 {
        'b'
    } else if d == 12 {
        'c'
    } else if d == 13 {
        'd'
    } else if d == 14 {
        'e'
    } else {
        'f'
    }
}

/// One character of a JSON string body: the quote and the backslash are
/// escaped by a backslash, control characters get their short escape or a
/// `\u00XX` escape, every other character stands as itself.
pub open spec fn spec_escaped_char(c: char) -> Seq<char> {
    if c == '"' || c == '\\' {
        seq!['\\', c]
    } else if c as nat == 8 {
        seq!['\\', 'b']
    } else if c as nat == 9 {
        seq!['\\', 't']
    } else if c as nat == 10 {
        seq!['\\', 'n']
    } else if c as nat == 12 {
        seq!['\\', 'f']
    } else if c as nat == 13 {
        seq!['\\', 'r']
    } else if (c as nat) < 32 {
        seq!['\\', 'u', '0', '0'] + seq![spec_hex_digit_char((c as nat) / 16)] + seq![
            spec_hex_digit_char((c as nat) % 16),
        ]
    } else {
        seq![c]
    }
}

/// A whole JSON string body, escaped character by character.
pub open spec fn spec_escape(s: Seq<char>) -> Seq<char>
    decreases s.len(),
{
    if s.len() == 0 {
        Seq::empty()
    } else {
        spec_escape(s.drop_last()) + spec_escaped_char(s.last())
    }
}

/// The JSON object for one completed record.
pub open spec fn spec_record_json(r: RecordView) -> Seq<char> {
    "{\"start\":"@ + spec_int_chars(r.start) + ",\"end\":"@ + spec_int_chars(r.end)
        + ",\"comment\":\""@ + spec_escape(r.comment) + "\"}"@
}

/// A comma-separated list of record objects.
pub open spec fn spec_records_json(rs: Seq<RecordView>) -> Seq<char>
    decreases rs.len(),
{
    if rs.len() == 0 {
        Seq::empty()
    } else if rs.len() == 1 {
        spec_record_json(rs[0])
    } else {
        spec_records_json(rs.drop_last()) + seq![','] + spec_record_json(rs.last())
    }
}

/// An optional instant: a decimal integer, or `null` when absent.
pub open spec fn spec_option_int_json(o: Option<int>) -> Seq<char> {
    match o {
        Some(n) => spec_int_chars(n),
        None => "null"@,
    }
}

/// The JSON object for one timer.
pub open spec fn spec_timer_json(t: TimerView) -> Seq<char> {
    "{\"records\":["@ + spec_records_json(t.records) + "],\"current_start\":"@
        + spec_option_int_json(t.current_start) + "}"@
}

/// One member of the timers object: the quoted name and the timer.
pub open spec fn spec_entry_json(name: Seq<char>, t: TimerView) -> Seq<char> {
    seq!['"'] + spec_escape(name) + "\":"@ + spec_timer_json(t)
}

/// The comma-separated members of the timers object, in registry order.
pub open spec fn spec_entries_json(es: Seq<(Seq<char>, TimerView)>) -> Seq<char>
    decreases es.len(),
{
    if es.len() == 0 {
        Seq::empty()
    } else if es.len() == 1 {
        spec_entry_json(es[0].0, es[0].1)
    } else {
        spec_entries_json(es.drop_last()) + seq![','] + spec_entry_json(es.last().0, es.last().1)
    }
}

/// The persisted JSON document of a whole state.
pub open spec fn spec_state_json(s: StateView) -> Seq<char> {
    "{\"timers\":{"@ + spec_entries_json(s.timers) + "},\"active_timer\":"@ + (match s
        .active_timer {
        Some(n) => seq!['"'] + spec_escape(n) + seq!['"'],
        None => "null"@,
    }) + "}"@
}

/// The decimal digit character of `d`, a value below ten.
fn digit_char(d: u64) -> (c: char)
    requires
        d < 10,
    ensures
        c == spec_digit_char(d as nat),
{
    if d == 0 {
        '0'
    } else if d == 1 {
        '1'
    } else if d == 2 {
        '2'
    } else if d == 3 {
        '3'
    } else if d == 4 {
        '4'
    } else if d == 5 {
        '5'
    } else if d == 6 {
        '6'
    } else if d == 7 {
        '7'
    } else if d == 8 {
        '8'
    } else {
        '9'
    }
}

fn push_u64(out: &mut String, n: u64)
    ensures
        final(out)@ == old(out)@ + spec_digits(n as nat),
    decreases n,
{
    if n < 10 {
        out.push(digit_char(n));
        proof {
            assert(old(out)@.push(spec_digit_char(n as nat)) =~= old(out)@ + spec_digits(
                n as nat,
            ));
        }
    } else {
        push_u64(out, n / 10);
        out.push(digit_char(n % 10));
        proof {
            assert((old(out)@ + spec_digits((n / 10) as nat)).push(
                spec_digit_char((n % 10) as nat),
            ) =~= old(out)@ + spec_digits(n as nat));
        }
    }
}

fn push_i64(out: &mut String, n: i64)
    ensures
        final(out)@ == old(out)@ + spec_int_chars(n as int),
{
    if n < 0 {
        out.push('-');
        let m: u64 = (-(n as i128)) as u64;
        push_u64(out, m);
        proof {
            assert(m as nat == (-(n as int)) as nat);
            assert(old(out)@.push('-') + spec_digits(m as nat) =~= old(out)@ + spec_int_chars(
                n as int,
            ));
        }
    } else {
        push_u64(out, n as u64);
    }
}

/// The lower-case hexadecimal digit character of `d`, a value below sixteen.
fn hex_digit_char(d: u32) -> (c: char)
    requires
        d < 16,
    ensures
        c == spec_hex_digit_char(d as nat),
{
    if d == 0 {
        '0'
    } else if d == 1 {
        '1'
    } else if d == 2 {
        '2'
    } else if d == 3 {
        '3'
    } else if d == 4 {
        '4'
    } else if d == 5 {
        '5'
    } else if d == 6 {
        '6'
    } else if d == 7 {
        '7'
    } else if d == 8 {
        '8'
    } else if d == 9 {
        '9'
    } else if d == 10 {
        'a'
    } else if d == 11 {
        'b'
    } else if d == 12 {
        'c'
    } else if d == 13 {
        'd'
    } else if d == 14 {
        'e'
    } else {
        'f'
    }
}

proof fn lemma_escape_take_succ(s: Seq<char>, i: int)
    requires
        0 <= i < s.len(),
    ensures
        spec_escape(s.take(i + 1)) == spec_escape(s.take(i)) + spec_escaped_char(s[i]),
{
    assert(s.take(i + 1).drop_last() =~= s.take(i));
}

fn push_escaped(out: &mut String, s: &str)
    ensures
        final(out)@ == old(out)@ + spec_escape(s@),
{
    let len = s.unicode_len();
    let mut i: usize = 0;
    proof {
        assert(out@ =~= old(out)@ + spec_escape(s@.take(0)));
    }
    while i < len
        invariant
            i <= len,
            len == s@.len(),
            out@ == old(out)@ + spec_escape(s@.take(i as int)),
        decreases len - i,
    {
        let c = s.get_char(i);
        proof {
            lemma_escape_take_succ(s@, i as int);
        }
        if c == '"' || c == '\\' {
            out.push('\\');
            out.push(c);
        } else {
            let code: u32 = c as u32;
            if code == 8 {
                out.push('\\');
                out.push('b');
            } else if code == 9 {
                out.push('\\');
                out.push('t');
            } else if code == 10 {
                out.push('\\');
                out.push('n');
            } else if code == 12 {
                out.push('\\');
                out.push('f');
            } else if code == 13 {
                out.push('\\');
                out.push('r');
            } else if code < 32 {
                out.push('\\');
                out.push('u');
                out.push('0');
                out.push('0');
                out.push(hex_digit_char(code / 16));
                out.push(hex_digit_char(code % 16));
            } else {
                out.push(c);
            }
        }
        proof {
            assert(out@ =~= old(out)@ + spec_escape(s@.take(i as int + 1)));
        }
        i = i + 1;
    }
    proof {
        assert(s@.take(len as int) =~= s@);
    }
}

fn push_record_json(out: &mut String, r: &TimerRecord)
    ensures
        final(out)@ == old(out)@ + spec_record_json(r@),
{
    out.append("{\"start\":");
    push_i64(out, r.start);
    out.append(",\"end\":");
    push_i64(out, r.end);
    out.append(",\"comment\":\"");
    push_escaped(out, r.comment.as_str());
    out.append("\"}");
    proof {
        assert(out@ =~= old(out)@ + spec_record_json(r@));
    }
}

proof fn lemma_records_json_take_succ(rs: Seq<RecordView>, i: int)
    requires
        0 <= i < rs.len(),
    ensures
        spec_records_json(rs.take(i + 1)) == spec_records_json(rs.take(i)) + (if i == 0 {
            Seq::<char>::empty()
        } else {
            seq![',']
        }) + spec_record_json(rs[i]),
{
    assert(rs.take(i + 1).drop_last() =~= rs.take(i));
    if i == 0 {
        assert(spec_records_json(rs.take(0)) + Seq::<char>::empty() + spec_record_json(rs[0])
            =~= spec_record_json(rs[0]));
    }
}

fn push_records_json(out: &mut String, rs: &Vec<TimerRecord>)
    ensures
        final(out)@ == old(out)@ + spec_records_json(rs@.map_values(|r: TimerRecord| r@)),
{
    let ghost rsv = rs@.map_values(|r: TimerRecord| r@);
    let mut i: usize = 0;
    proof {
        assert(out@ =~= old(out)@ + spec_records_json(rsv.take(0)));
    }
    while i < rs.len()
        invariant
            i <= rs@.len(),
            rsv == rs@.map_values(|r: TimerRecord| r@),
            out@ == old(out)@ + spec_records_json(rsv.take(i as int)),
        decreases rs@.len() - i,
    {
        if i > 0 {
            out.push(',');
        }
        push_record_json(out, &rs[i]);
        proof {
            lemma_records_json_take_succ(rsv, i as int);
            assert(out@ =~= old(out)@ + spec_records_json(rsv.take(i as int + 1)));
        }
        i = i + 1;
    }
    proof {
        assert(rsv.take(rs@.len() as int) =~= rsv);
    }
}

fn push_timer_json(out: &mut String, t: &Timer)
    ensures
        final(out)@ == old(out)@ + spec_timer_json(t@),
{
    out.append("{\"records\":[");
    push_records_json(out, &t.records);
    out.append("],\"current_start\":");
    match t.current_start {
        Some(ts) => push_i64(out, ts),
        None => out.append("null"),
    };
    out.append("}");
    proof {
        assert(out@ =~= old(out)@ + spec_timer_json(t@));
    }
}

fn push_entry_json(out: &mut String, name: &String, t: &Timer)
    ensures
        final(out)@ == old(out)@ + spec_entry_json(name@, t@),
{
    out.push('"');
    push_escaped(out, name.as_str());
    out.append("\":");
    push_timer_json(out, t);
    proof {
        assert(out@ =~= old(out)@ + spec_entry_json(name@, t@));
    }
}

proof fn lemma_entries_json_take_succ(es: Seq<(Seq<char>, TimerView)>, i: int)
    requires
        0 <= i < es.len(),
    ensures
        spec_entries_json(es.take(i + 1)) == spec_entries_json(es.take(i)) + (if i == 0 {
            Seq::<char>::empty()
        } else {
            seq![',']
        }) + spec_entry_json(es[i].0, es[i].1),
{
    assert(es.take(i + 1).drop_last() =~= es.take(i));
    if i == 0 {
        assert(spec_entries_json(es.take(0)) + Seq::<char>::empty() + spec_entry_json(
            es[0].0,
            es[0].1,
        ) =~= spec_entry_json(es[0].0, es[0].1));
    }
}

fn push_entries_json(out: &mut String, es: &Vec<(String, Timer)>)
    ensures
        final(out)@ == old(out)@ + spec_entries_json(
            es@.map_values(|e: (String, Timer)| (e.0@, e.1@)),
        ),
{
    let ghost esv = es@.map_values(|e: (String, Timer)| (e.0@, e.1@));
    let mut i: usize = 0;
    proof {
        assert(out@ =~= old(out)@ + spec_entries_json(esv.take(0)));
    }
    while i < es.len()
        invariant
            i <= es@.len(),
            esv == es@.map_values(|e: (String, Timer)| (e.0@, e.1@)),
            out@ == old(out)@ + spec_entries_json(esv.take(i as int)),
        decreases es@.len() - i,
    {
        if i > 0 {
            out.push(',');
        }
        push_entry_json(out, &es[i].0, &es[i].1);
        proof {
            lemma_entries_json_take_succ(esv, i as int);
            assert(out@ =~= old(out)@ + spec_entries_json(esv.take(i as int + 1)));
        }
        i = i + 1;
    }
    proof {
        assert(esv.take(es@.len() as int) =~= esv);
    }
}

impl AppState {
    /// The persisted JSON document of this state: every timer under its
    /// name, in registry order, then the active-timer selection.
    pub fn to_json(&self) -> (r: String)
        ensures
            r@ == spec_state_json(self@),
    {
        let mut out = String::new();
        out.append("{\"timers\":{");
        push_entries_json(&mut out, self.entries());
        out.append("},\"active_timer\":");
        match self.active_timer_name() {
            Some(n) => {
                out.push('"');
                push_escaped(&mut out, n.as_str());
                out.push('"');
            },
            None => out.append("null"),
        };
        out.append("}");
        proof {
            assert(out@ =~= spec_state_json(self@));
        }
        out
    }
}

} // verus!
