use vstd::prelude::*;
use vstd::string::StrSliceExecFns;
use vstd::string::StringExecFns;

use crate::errors::RepoError;
use crate::model::StudentRow;
use crate::text::push_char;
use crate::text::render_u32;
use crate::text::parse_u32_digits;
use crate::text::scan_for;
use crate::text::spec_dec_digits;
use crate::text::spec_parse_u32;
use crate::text::spec_is_digit;
use crate::text::spec_scan_len;
use crate::text::lemma_scan_len_at;
use crate::text::lemma_scan_len_le;

verus! {

/// The header line of an exported roster.
pub open spec fn spec_csv_header() -> Seq<char> {
    "Student Name,Grade Level\n"@
}

/// Whether a field must be quoted to survive in a roster line.
pub open spec fn spec_needs_quoting(s: Seq<char>) -> bool {
    exists|i: int|
        0 <= i < s.len() && ((#[trigger] s[i]) == ',' || s[i] == '"' || s[i] == '\n' || s[i]
            == '\r')
}

/// A field's characters with every quote doubled.
pub open spec fn spec_escape_quotes(s: Seq<char>) -> Seq<char>
    decreases s.len(),
{
    if s.len() == 0 {
        Seq::<char>::empty()
    } else {
        spec_escape_quotes(s.drop_last()) + (if s.last() == '"' {
            seq!['"', '"']
        } else {
            seq![s.last()]
        })
    }
}

/// A field as a roster line carries it: plain when it holds no separator,
/// quote or line break; quoted with doubled quotes otherwise.
pub open spec fn spec_csv_field(s: Seq<char>) -> Seq<char> {
    if spec_needs_quoting(s) {
        seq!['"'] + spec_escape_quotes(s) + seq!['"']
    } else {
        s
    }
}

/// The roster line of one student: field, comma, decimal grade, line break.
pub open spec fn spec_roster_line(r: StudentRow) -> Seq<char> {
    spec_csv_field(r.name@) + seq![','] + spec_dec_digits(r.grade_level as nat) + seq!['\n']
}

/// A whole exported roster: the header, then one line per student in order.
pub open spec fn spec_render_roster(rows: Seq<StudentRow>) -> Seq<char>
    decreases rows.len(),
{
    if rows.len() == 0 {
        spec_csv_header()
    } else {
        spec_render_roster(rows.drop_last()) + spec_roster_line(rows.last())
    }
}

/// A student whose name needs no quoting, exported as a roster line, imports
/// back with the same name and grade level. (A quoted name is written with
/// surrounding quotes, which the plain import format reads literally, so the
/// law is stated for unquoted names.)
pub proof fn lemma_roster_line_round_trip(r: StudentRow)
    requires
        !spec_needs_quoting(r.name@),
    ensures
        spec_parse_line(spec_roster_line(r).drop_last()) == Some((r.name@, r.grade_level)),
{
    let name = r.name@;
    let digits = spec_dec_digits(r.grade_level as nat);
    crate::text::lemma_dec_digits_props(r.grade_level as nat);
    let line = spec_roster_line(r).drop_last();
    assert(line =~= name + seq![','] + digits);
    assert(spec_is_digit(line.last()));
    assert(line.last() != '\r');
    assert forall|k: int| 0 <= k < name.len() implies line[k] != ',' by {
        assert(line[k] == name[k]);
    }
    assert(line[name.len() as int] == ',');
    lemma_scan_len_at(line, ',', name.len() as int);
    assert(line.take(name.len() as int) =~= name);
    assert(line.skip(name.len() as int + 1) =~= digits);
    assert(spec_parse_u32(digits) == Some(r.grade_level));
}

/// Whether a field must be quoted on export.
pub fn needs_quoting(s: &str) -> (r: bool)
    ensures
        r == spec_needs_quoting(s@),
{
    let n = s.unicode_len();
    let mut i: usize = 0;
    while i < n
        invariant
            i <= n,
            n == s@.len(),
            forall|k: int|
                0 <= k < i ==> !((#[trigger] s@[k]) == ',' || s@[k] == '"' || s@[k] == '\n'
                    || s@[k] == '\r'),
        decreases n - i,
    {
        let c = s.get_char(i);
        if c == ',' || c == '"' || c == '\n' || c == '\r' {
            return true;
        }
        i = i + 1;
    }
    false
}

/// Doubles every quote of a field.
pub fn escape_quotes(s: &str) -> (r: String)
    ensures
        r@ == spec_escape_quotes(s@),
{
    let n = s.unicode_len();
    let mut out = String::new();
    let mut i: usize = 0;
    while i < n
        invariant
            i <= n,
            n == s@.len(),
            out@ == spec_escape_quotes(s@.take(i as int)),
        decreases n - i,
    {
        proof {
            assert(s@.take(i + 1).drop_last() =~= s@.take(i as int));
            assert(s@.take(i + 1).last() == s@[i as int]);
        }
        let c = s.get_char(i);
        push_char(&mut out, c);
        if c == '"' {
            push_char(&mut out, '"');
            proof {
                assert(out@ =~= spec_escape_quotes(s@.take(i + 1)));
            }
        } else {
            proof {
                assert(out@ =~= spec_escape_quotes(s@.take(i + 1)));
            }
        }
        i = i + 1;
    }
    proof {
        assert(s@.take(n as int) =~= s@);
    }
    out
}

/// Writes the roster as CSV: the canonical header, then `name,gradeLevel`
/// lines, names quoted only where they hold a separator, quote or line break.
pub fn render_roster_csv(rows: &Vec<StudentRow>) -> (r: String)
    ensures
        r@ == spec_render_roster(rows@),
{
    let mut out = String::from_str("Student Name,Grade Level\n");
    let mut i: usize = 0;
    while i < rows.len()
        invariant
            i <= rows@.len(),
            out@ == spec_render_roster(rows@.take(i as int)),
        decreases rows@.len() - i,
    {
        proof {
            assert(rows@.take(i + 1).drop_last() =~= rows@.take(i as int));
            assert(rows@.take(i + 1).last() == rows@[i as int]);
        }
        let ghost before = out@;
        let name = &rows[i].name;
        if needs_quoting(name.as_str()) {
            push_char(&mut out, '"');
            let esc = escape_quotes(name.as_str());
            out.append(esc.as_str());
            push_char(&mut out, '"');
            proof {
                assert(out@ =~= before + spec_csv_field(name@));
            }
        } else {
            out.append(name.as_str());
        }
        push_char(&mut out, ',');
        let grade = render_u32(rows[i].grade_level);
        out.append(grade.as_str());
        push_char(&mut out, '\n');
        proof {
            assert(out@ =~= before + spec_roster_line(rows@[i as int]));
            assert(out@ =~= spec_render_roster(rows@.take(i + 1)));
        }
        i = i + 1;
    }
    proof {
        assert(rows@.take(rows@.len() as int) =~= rows@);
    }
    out
}

/// What one import line parses to: the line, stripped of a trailing carriage
/// return, must hold a comma; the name is everything before the first comma,
/// and the rest must read as a grade level in decimal.
pub open spec fn spec_parse_line(line: Seq<char>) -> Option<(Seq<char>, u32)> {
    let l = if line.len() > 0 && line.last() == '\r' {
        line.drop_last()
    } else {
        line
    };
    let cl = spec_scan_len(l, ',') as int;
    if cl == l.len() {
        None
    } else {
        match spec_parse_u32(l.skip(cl + 1)) {
            None => None,
            Some(g) => Some((l.take(cl), g)),
        }
    }
}

/// What a whole import parses to: one record per line; any malformed line
/// makes the whole import malformed.
pub open spec fn spec_parse_roster(s: Seq<char>) -> Option<Seq<(Seq<char>, u32)>>
    decreases s.len(),
    via spec_parse_roster_dec
{
    if s.len() == 0 {
        Some(Seq::<(Seq<char>, u32)>::empty())
    } else {
        let ll = spec_scan_len(s, '\n') as int;
        let rest = if ll == s.len() {
            Seq::<char>::empty()
        } else {
            s.skip(ll + 1)
        };
        match spec_parse_line(s.take(ll)) {
            None => None,
            Some(rec) => match spec_parse_roster(rest) {
                None => None,
                Some(tail) => Some(seq![rec] + tail),
            },
        }
    }
}

#[via_fn]
proof fn spec_parse_roster_dec(s: Seq<char>) {
    if s.len() > 0 {
        lemma_scan_len_le(s, '\n');
    }
}

/// Whether parsed records carry exactly the given names and grades, in order.
pub open spec fn records_match(v: Seq<(String, u32)>, rs: Seq<(Seq<char>, u32)>) -> bool {
    &&& v.len() == rs.len()
    &&& (forall|i: int|
        0 <= i < v.len() ==> (#[trigger] v[i]).0@ == rs[i].0 && v[i].1 == rs[i].1)
}

/// Parses one import line into a name and a grade level.
pub fn parse_line(line: &str) -> (res: Option<(String, u32)>)
    ensures
        match spec_parse_line(line@) {
            Some(p) => (res is Some) && res.unwrap().0@ == p.0 && res.unwrap().1 == p.1,
            None => res is None,
        },
{
    let n = line.unicode_len();
    let l: &str = if n > 0 && line.get_char(n - 1) == '\r' {
        let t = line.substring_char(0, n - 1);
        proof {
            assert(t@ =~= line@.drop_last());
        }
        t
    } else {
        line
    };
    let m = l.unicode_len();
    let cl = scan_for(l, ',');
    if cl == m {
        return None;
    }
    let digits = l.substring_char(cl + 1, m);
    proof {
        assert(digits@ =~= l@.skip(cl + 1));
    }
    match parse_u32_digits(digits) {
        None => None,
        Some(g) => {
            let name = l.substring_char(0, cl).to_owned();
            proof {
                assert(name@ =~= l@.take(cl as int));
            }
            Some((name, g))
        },
    }
}

/// Parses CSV text of `name,gradeLevel` lines into the records to import; the
/// first malformed line aborts the whole import with a typed error.
pub fn parse_roster_csv(s: &str) -> (res: Result<Vec<(String, u32)>, RepoError>)
    ensures
        match spec_parse_roster(s@) {
            Some(rs) => (res is Ok) && records_match(res.unwrap()@, rs),
            None => res == Err::<Vec<(String, u32)>, RepoError>(RepoError::CsvMalformed),
        },
    decreases s@.len(),
{
    let n = s.unicode_len();
    if n == 0 {
        let out: Vec<(String, u32)> = Vec::new();
        return Ok(out);
    }
    let ll = scan_for(s, '\n');
    let line = s.substring_char(0, ll);
    proof {
        assert(line@ =~= s@.take(ll as int));
    }
    let rec = match parse_line(line) {
        None => {
            return Err(RepoError::CsvMalformed);
        },
        Some(r) => r,
    };
    let mut tail: Vec<(String, u32)> = if ll == n {
        Vec::new()
    } else {
        let rest = s.substring_char(ll + 1, n);
        proof {
            assert(rest@ =~= s@.skip(ll + 1));
        }
        match parse_roster_csv(rest) {
            Err(e) => {
                return Err(e);
            },
            Ok(v) => v,
        }
    };
    proof {
        if spec_parse_line(s@.take(ll as int)) is None {
            assert(false);
        }
        if ll != n && spec_parse_roster(s@.skip(ll + 1)) is None {
            assert(false);
        }
    }
    let ghost rec_spec = spec_parse_line(s@.take(ll as int)).unwrap();
    let ghost tail_rs = if ll == n {
        Seq::<(Seq<char>, u32)>::empty()
    } else {
        spec_parse_roster(s@.skip(ll + 1)).unwrap()
    };
    let ghost old_tail = tail@;
    tail.insert(0, rec);
    proof {
        assert(records_match(old_tail, tail_rs));
        reveal_with_fuel(spec_parse_roster, 2);
        let sll = spec_scan_len(s@, '\n') as int;
        assert(sll == ll as int);
        assert(s@.len() > 0);
        assert(spec_parse_line(s@.take(sll)) == Some(rec_spec));
        if ll == n {
            assert(sll == s@.len());
        } else {
            assert(sll != s@.len());
            assert(spec_parse_roster(s@.skip(sll + 1)) == Some(tail_rs));
        }
        assert(spec_parse_roster(s@) == Some(seq![rec_spec] + tail_rs));
        let rs = seq![rec_spec] + tail_rs;
        assert(tail@ == old_tail.insert(0, rec));
        assert(tail@.len() == rs.len());
        assert forall|i: int| 0 <= i < tail@.len() implies (#[trigger] tail@[i]).0@ == rs[i].0
            && tail@[i].1 == rs[i].1 by {
            if i == 0 {
                assert(tail@[0] == rec);
                assert(rs[0] == rec_spec);
            } else {
                assert(tail@[i] == old_tail[i - 1]);
                assert(rs[i] == tail_rs[i - 1]);
            }
        }
        assert(records_match(tail@, rs));
    }
    Ok(tail)
}

} // verus!
