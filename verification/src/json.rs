//! JSON serialization of records: an array of objects with exactly the
//! fields `id`, `name` and `email`, in that key order.

use vstd::prelude::*;
use vstd::string::StringExecFns;

use crate::record::{Record, RecordModel};
use crate::text::{chars_vec, digit_char};

verus! {

/// The lowercase hexadecimal digit character for a value below sixteen.
pub open spec fn hex_digit(d: nat) -> char
    recommends
        d < 16,
{
    if d < 10 {
        digit_char(d)
    } else {
        (('a' as u8) + ((d - 10) as u8)) as char
    }
}

/// How one character appears inside a JSON string literal: quotes and
/// backslashes are escaped, control characters use the short escapes
/// `\b \t \n \f \r` where one exists and `\u00..` otherwise, and every
/// other character stands for itself.
pub open spec fn json_escape_char(c: char) -> Seq<char> {
    if c == '"' {
        seq!['\\', '"']
    } else if c == '\\' {
        seq!['\\', '\\']
    } else if c == '\u{0008}' {
        seq!['\\', 'b']
    } else if c == '\t' {
        seq!['\\', 't']
    } else if c == '\n' {
        seq!['\\', 'n']
    } else if c == '\u{000C}' {
        seq!['\\', 'f']
    } else if c == '\r' {
        seq!['\\', 'r']
    } else if (c as u32) < 0x20 {
        seq!['\\', 'u', '0', '0', hex_digit(((c as u32) / 16) as nat), hex_digit(((c as u32) % 16) as nat)]
    } else {
        seq![c]
    }
}

/// The JSON escaping of a whole character sequence.
pub open spec fn json_escape(s: Seq<char>) -> Seq<char>
    decreases s.len(),
{
    if s.len() == 0 {
        Seq::empty()
    } else {
        json_escape(s.drop_last()) + json_escape_char(s.last())
    }
}

/// The JSON object for one record, with the three keys in stable order.
pub open spec fn json_record(r: RecordModel) -> Seq<char> {
    "{\"id\":\""@ + json_escape(r.id) + "\",\"name\":\""@ + json_escape(r.name)
        + "\",\"email\":\""@ + json_escape(r.email) + "\"}"@
}

/// The comma-separated object list for a record sequence.
pub open spec fn json_records_body(rs: Seq<RecordModel>) -> Seq<char>
    decreases rs.len(),
{
    if rs.len() == 0 {
        Seq::empty()
    } else if rs.len() == 1 {
        json_record(rs[0])
    } else {
        json_records_body(rs.drop_last()) + seq![','] + json_record(rs.last())
    }
}

/// The JSON array for a record sequence.
pub open spec fn json_records(rs: Seq<RecordModel>) -> Seq<char> {
    seq!['['] + json_records_body(rs) + seq![']']
}

/// Appends the JSON escaping of `s` to `out`.
fn push_escaped(out: &mut String, s: &str)
    ensures
        final(out)@ == old(out)@ + json_escape(s@),
{
    let v = chars_vec(s);
    let n = v.len();
    let mut i: usize = 0;
    proof {
        assert(out@ + json_escape(v@.subrange(0, 0)) =~= out@);
    }
    while i < n
        invariant
            i <= n,
            n == v@.len(),
            v@ == s@,
            out@ == old(out)@ + json_escape(v@.subrange(0, i as int)),
        decreases n - i,
    {
        let c = v[i];
        if c == '"' {
            out.push('\\');
            out.push('"');
        } else if c == '\\' {
            out.push('\\');
            out.push('\\');
        } else if c == '\u{0008}' {
            out.push('\\');
            out.push('b');
        } else if c == '\t' {
            out.push('\\');
            out.push('t');
        } else if c == '\n' {
            out.push('\\');
            out.push('n');
        } else if c == '\u{000C}' {
            out.push('\\');
            out.push('f');
        } else if c == '\r' {
            out.push('\\');
            out.push('r');
        } else if (c as u32) < 0x20 {
            out.push('\\');
            out.push('u');
            out.push('0');
            out.push('0');
            let code = c as u32;
            let hi: u32 = code / 16;
            let lo: u32 = code % 16;
            let hc: char = if hi < 10 {
                (('0' as u8) + (hi as u8)) as char
            } else {
                (('a' as u8) + ((hi - 10) as u8)) as char
            };
            let lc: char = if lo < 10 {
                (('0' as u8) + (lo as u8)) as char
            } else {
                (('a' as u8) + ((lo - 10) as u8)) as char
            };
            out.push(hc);
            out.push(lc);
        } else {
            out.push(c);
        }
        i = i + 1;
        proof {
            assert(v@.subrange(0, i as int).drop_last() =~= v@.subrange(0, i - 1));
            assert(v@.subrange(0, i as int).last() == v@[i - 1]);
            assert(out@ =~= old(out)@ + json_escape(v@.subrange(0, i as int)));
        }
    }
    proof {
        assert(v@.subrange(0, n as int) =~= v@);
    }
}

/// Appends the JSON object for one record to `out`.
fn push_record(out: &mut String, r: &Record)
    ensures
        final(out)@ == old(out)@ + json_record(r.deep_view()),
{
    out.append("{\"id\":\"");
    push_escaped(out, r.id.as_str());
    out.append("\",\"name\":\"");
    push_escaped(out, r.name.as_str());
    out.append("\",\"email\":\"");
    push_escaped(out, r.email.as_str());
    out.append("\"}");
    proof {
        assert(out@ =~= old(out)@ + json_record(r.deep_view()));
    }
}

/// Serializes records as a JSON array, per [`json_records`].
pub fn to_json(records: &Vec<Record>) -> (r: String)
    ensures
        r@ == json_records(records.deep_view()),
{
    let mut out = String::new();
    out.push('[');
    let n = records.len();
    let mut k: usize = 0;
    proof {
        assert(out@ =~= seq!['['] + json_records_body(records.deep_view().subrange(0, 0)));
    }
    while k < n
        invariant
            k <= n,
            n == records@.len(),
            records.deep_view().len() == n,
            out@ == seq!['['] + json_records_body(records.deep_view().subrange(0, k as int)),
        decreases n - k,
    {
        if k > 0 {
            out.push(',');
        }
        push_record(&mut out, &records[k]);
        k = k + 1;
        proof {
            let dv = records.deep_view();
            let pre = dv.subrange(0, k - 1);
            let cur = dv.subrange(0, k as int);
            assert(cur.drop_last() =~= pre);
            assert(cur.last() == dv[k - 1]);
            assert(records@[k - 1].deep_view() == dv[k - 1]);
            assert(out@ =~= seq!['['] + json_records_body(cur));
        }
    }
    out.push(']');
    proof {
        assert(records.deep_view().subrange(0, n as int) =~= records.deep_view());
        assert(out@ =~= json_records(records.deep_view()));
    }
    out
}

} // verus!
