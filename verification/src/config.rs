use vstd::prelude::*;
use vstd::string::StrSliceExecFns;
use vstd::string::StringExecFns;

use crate::errors::RepoError;
use crate::text::push_char;

verus! {

/// The configuration: an optional path to the active database file, persisted
/// as a one-field JSON document.
#[derive(Debug)]
pub struct AppConfig {
    pub database_path: Option<String>,
}

/// The path a configuration holds, as a mathematical value.
pub open spec fn spec_config_path(c: AppConfig) -> Option<Seq<char>> {
    match c.database_path {
        None => None,
        Some(p) => Some(p@),
    }
}

impl AppConfig {
    /// The configuration of a first run: no database file selected yet.
    pub fn new() -> (r: AppConfig)
        ensures
            spec_config_path(r) == None::<Seq<char>>,
    {
        AppConfig { database_path: None }
    }

    /// Selects a database file.
    pub fn set_database_path(&mut self, path: String)
        ensures
            spec_config_path(*final(self)) == Some(path@),
    {
        self.database_path = Some(path);
    }

    /// The selected database file, if any.
    pub fn get_database_path(&self) -> (r: Option<String>)
        ensures
            match r {
                None => spec_config_path(*self) == None::<Seq<char>>,
                Some(p) => spec_config_path(*self) == Some(p@),
            },
    {
        match &self.database_path {
            None => None,
            Some(p) => Some(p.clone()),
        }
    }
}

/// The opening of the config document, up to the field's value.
pub open spec fn spec_config_prefix() -> Seq<char> {
    "{\"databasePath\":"@
}

/// One character as the config document carries it: quotes and backslashes
/// take a leading backslash.
pub open spec fn spec_json_escape_char(c: char) -> Seq<char> {
    if c == '"' || c == '\\' {
        seq!['\\', c]
    } else {
        seq![c]
    }
}

/// A string as the config document carries it between its quotes.
pub open spec fn spec_json_escape(s: Seq<char>) -> Seq<char>
    decreases s.len(),
{
    if s.len() == 0 {
        Seq::<char>::empty()
    } else {
        spec_json_escape_char(s[0]) + spec_json_escape(s.drop_first())
    }
}

/// Escaping a concatenation escapes the parts in place.
pub proof fn lemma_json_escape_concat(a: Seq<char>, b: Seq<char>)
    ensures
        spec_json_escape(a + b) == spec_json_escape(a) + spec_json_escape(b),
    decreases a.len(),
{
    if a.len() == 0 {
        assert(a + b =~= b);
        assert(spec_json_escape(a) + spec_json_escape(b) =~= spec_json_escape(b));
    } else {
        assert((a + b)[0] == a[0]);
        assert((a + b).drop_first() =~= a.drop_first() + b);
        lemma_json_escape_concat(a.drop_first(), b);
        assert(spec_json_escape_char(a[0]) + (spec_json_escape(a.drop_first()) + spec_json_escape(
            b,
        )) =~= (spec_json_escape_char(a[0]) + spec_json_escape(a.drop_first()))
            + spec_json_escape(b));
    }
}

/// The whole config document for a given path choice.
pub open spec fn spec_render_config(p: Option<Seq<char>>) -> Seq<char> {
    match p {
        None => spec_config_prefix() + "null}"@,
        Some(s) => spec_config_prefix() + seq!['"'] + spec_json_escape(s) + seq!['"', '}'],
    }
}

/// What scanning a quoted string's tail yields: the unescaped content up to
/// the closing quote, and everything after that quote; `None` when no closing
/// quote is found or the text ends inside an escape.
pub open spec fn spec_scan_jstring(s: Seq<char>) -> Option<(Seq<char>, Seq<char>)>
    decreases s.len(),
{
    if s.len() == 0 {
        None
    } else if s[0] == '"' {
        Some((Seq::<char>::empty(), s.drop_first()))
    } else if s[0] == '\\' {
        if s.len() >= 2 {
            match spec_scan_jstring(s.skip(2)) {
                None => None,
                Some(p) => Some((seq![s[1]] + p.0, p.1)),
            }
        } else {
            None
        }
    } else {
        match spec_scan_jstring(s.drop_first()) {
            None => None,
            Some(p) => Some((seq![s[0]] + p.0, p.1)),
        }
    }
}

/// Scanning an escaped string followed by its closing quote yields the string
/// back, with whatever follows the quote untouched.
pub proof fn lemma_scan_escaped(s: Seq<char>, t: Seq<char>)
    ensures
        spec_scan_jstring(spec_json_escape(s) + seq!['"'] + t) == Some((s, t)),
    decreases s.len(),
{
    let input = spec_json_escape(s) + seq!['"'] + t;
    if s.len() == 0 {
        assert(input =~= seq!['"'] + t);
        assert(input[0] == '"');
        assert(input.drop_first() =~= t);
        assert(spec_scan_jstring(input).unwrap().0 =~= s);
    } else {
        let c = s[0];
        let rest = s.drop_first();
        lemma_scan_escaped(rest, t);
        let sub = spec_json_escape(rest) + seq!['"'] + t;
        if c == '"' || c == '\\' {
            assert(input =~= seq!['\\', c] + sub);
            assert(input[0] == '\\');
            assert(input.len() >= 2);
            assert(input[1] == c);
            assert(input.skip(2) =~= sub);
            assert(seq![c] + rest =~= s);
        } else {
            assert(input =~= seq![c] + sub);
            assert(input[0] == c);
            assert(input.drop_first() =~= sub);
            assert(seq![c] + rest =~= s);
        }
    }
}

/// What a config document parses to: the path choice exactly when the text is
/// the canonical document for it; `None` for any other text.
pub open spec fn spec_parse_config(s: Seq<char>) -> Option<Option<Seq<char>>> {
    let pre = spec_config_prefix();
    if s.len() < pre.len() || s.take(pre.len() as int) != pre {
        None
    } else {
        let body = s.skip(pre.len() as int);
        if body == "null}"@ {
            Some(None)
        } else if body.len() > 0 && body[0] == '"' {
            match spec_scan_jstring(body.drop_first()) {
                None => None,
                Some(p) => if p.1 == seq!['}'] {
                    Some(Some(p.0))
                } else {
                    None
                },
            }
        } else {
            None
        }
    }
}

/// A path written into the config document is read back unchanged, and so is
/// the absence of one.
pub proof fn lemma_config_round_trip(p: Option<Seq<char>>)
    ensures
        spec_parse_config(spec_render_config(p)) == Some(p),
{
    reveal_strlit("{\"databasePath\":");
    reveal_strlit("null}");
    let pre = spec_config_prefix();
    let s = spec_render_config(p);
    match p {
        None => {
            assert(s.take(pre.len() as int) =~= pre);
            assert(s.skip(pre.len() as int) =~= "null}"@);
        },
        Some(path) => {
            assert(s.take(pre.len() as int) =~= pre);
            let body = s.skip(pre.len() as int);
            assert(body =~= seq!['"'] + spec_json_escape(path) + seq!['"', '}']);
            assert(body[0] == '"');
            assert("null}"@[0] == 'n');
            assert(body != "null}"@);
            assert(body.drop_first() =~= spec_json_escape(path) + seq!['"'] + seq!['}']);
            lemma_scan_escaped(path, seq!['}']);
        },
    }
}

/// Escapes a path for the config document.
fn escape_json(s: &str) -> (r: String)
    ensures
        r@ == spec_json_escape(s@),
{
    let n = s.unicode_len();
    let mut out = String::new();
    let mut i: usize = 0;
    while i < n
        invariant
            i <= n,
            n == s@.len(),
            out@ == spec_json_escape(s@.take(i as int)),
        decreases n - i,
    {
        let c = s.get_char(i);
        proof {
            lemma_json_escape_concat(s@.take(i as int), seq![s@[i as int]]);
            assert(s@.take(i + 1) =~= s@.take(i as int) + seq![s@[i as int]]);
            assert(seq![s@[i as int]].drop_first() =~= Seq::<char>::empty());
        }
        if c == '"' || c == '\\' {
            push_char(&mut out, '\\');
            push_char(&mut out, c);
        } else {
            push_char(&mut out, c);
        }
        proof {
            let single = seq![s@[i as int]];
            assert(single.len() == 1);
            assert(single[0] == s@[i as int]);
            assert(single.drop_first() =~= Seq::<char>::empty());
            assert(spec_json_escape(single.drop_first()) =~= Seq::<char>::empty());
            assert(spec_json_escape(seq![s@[i as int]]) =~= spec_json_escape_char(s@[i as int]));
            assert(out@ =~= spec_json_escape(s@.take(i as int)) + spec_json_escape_char(
                s@[i as int],
            ));
            assert(out@ =~= spec_json_escape(s@.take(i + 1)));
        }
        i = i + 1;
    }
    proof {
        assert(s@.take(n as int) =~= s@);
    }
    out
}

/// Writes the canonical config document for a configuration.
pub fn render_config(c: &AppConfig) -> (r: String)
    ensures
        r@ == spec_render_config(spec_config_path(*c)),
{
    match &c.database_path {
        None => {
            let s = String::from_str("{\"databasePath\":null}");
            proof {
                reveal_strlit("{\"databasePath\":null}");
                reveal_strlit("{\"databasePath\":");
                reveal_strlit("null}");
                assert(s@ =~= spec_config_prefix() + "null}"@);
            }
            s
        },
        Some(path) => {
            let mut out = String::from_str("{\"databasePath\":\"");
            proof {
                reveal_strlit("{\"databasePath\":\"");
                reveal_strlit("{\"databasePath\":");
                assert(out@ =~= spec_config_prefix() + seq!['"']);
            }
            let esc = escape_json(path.as_str());
            out.append(esc.as_str());
            push_char(&mut out, '"');
            push_char(&mut out, '}');
            proof {
                assert(out@ =~= spec_render_config(spec_config_path(*c)));
            }
            out
        },
    }
}

/// Scans a quoted string's tail, returning the unescaped content and what
/// follows the closing quote.
fn scan_jstring(s: &str) -> (res: Option<(String, String)>)
    ensures
        match spec_scan_jstring(s@) {
            None => res is None,
            Some(p) => (res is Some) && res.unwrap().0@ == p.0 && res.unwrap().1@ == p.1,
        },
    decreases s@.len(),
{
    let n = s.unicode_len();
    if n == 0 {
        return None;
    }
    let c = s.get_char(0);
    if c == '"' {
        let rest = s.substring_char(1, n).to_owned();
        proof {
            assert(rest@ =~= s@.drop_first());
        }
        return Some((String::new(), rest));
    }
    if c == '\\' {
        if n < 2 {
            return None;
        }
        let d = s.get_char(1);
        let sub = s.substring_char(2, n);
        proof {
            assert(sub@ =~= s@.skip(2));
        }
        match scan_jstring(sub) {
            None => None,
            Some(pair) => {
                let (content, rest) = pair;
                let mut out = String::new();
                push_char(&mut out, d);
                out.append(content.as_str());
                proof {
                    assert(out@ =~= seq![s@[1]] + content@);
                }
                Some((out, rest))
            },
        }
    } else {
        let sub = s.substring_char(1, n);
        proof {
            assert(sub@ =~= s@.drop_first());
        }
        match scan_jstring(sub) {
            None => None,
            Some(pair) => {
                let (content, rest) = pair;
                let mut out = String::new();
                push_char(&mut out, c);
                out.append(content.as_str());
                proof {
                    assert(out@ =~= seq![s@[0]] + content@);
                }
                Some((out, rest))
            },
        }
    }
}

/// Reads a config document; any text that is not a canonical document is a
/// typed corruption error, never a crash.
pub fn parse_config(s: &str) -> (res: Result<AppConfig, RepoError>)
    ensures
        match spec_parse_config(s@) {
            None => res == Err::<AppConfig, RepoError>(RepoError::ConfigCorrupt),
            Some(p) => (res is Ok) && spec_config_path(res.unwrap()) == p,
        },
{
    let pre = "{\"databasePath\":";
    proof {
        reveal_strlit("{\"databasePath\":");
        reveal_strlit("null}");
    }
    let n = s.unicode_len();
    if n < 16 {
        return Err(RepoError::ConfigCorrupt);
    }
    let mut k: usize = 0;
    while k < 16
        invariant
            k <= 16,
            16 <= n == s@.len(),
            pre@ == spec_config_prefix(),
            pre@.len() == 16,
            forall|m: int| 0 <= m < k ==> s@[m] == pre@[m],
        decreases 16 - k,
    {
        if s.get_char(k) != pre.get_char(k) {
            proof {
                assert(s@.take(16)[k as int] != pre@[k as int]);
            }
            return Err(RepoError::ConfigCorrupt);
        }
        k = k + 1;
    }
    proof {
        assert(s@.take(16) =~= spec_config_prefix());
    }
    let ghost body = s@.skip(16);
    if n >= 17 && s.get_char(16) == '"' {
        proof {
            assert(body[0] == '"');
            assert("null}"@[0] == 'n');
            assert(body != "null}"@);
        }
        let tail = s.substring_char(17, n);
        proof {
            assert(tail@ =~= body.drop_first());
        }
        match scan_jstring(tail) {
            None => Err(RepoError::ConfigCorrupt),
            Some(pair) => {
                let (content, rest) = pair;
                let m = rest.as_str().unicode_len();
                if m == 1 && rest.as_str().get_char(0) == '}' {
                    proof {
                        assert(rest@ =~= seq!['}']);
                    }
                    Ok(AppConfig { database_path: Some(content) })
                } else {
                    proof {
                        if rest@.len() == 1 {
                            assert(rest@[0] != '}');
                            assert(rest@ != seq!['}']);
                        } else {
                            assert(rest@ != seq!['}']);
                        }
                    }
                    Err(RepoError::ConfigCorrupt)
                }
            },
        }
    } else {
        if n == 21 {
            let mut ok = true;
            let mut j: usize = 0;
            let nl = "null}";
            while j < 5
                invariant
                    j <= 5,
                    n == s@.len(),
                    n == 21,
                    nl@ == "null}"@,
                    nl@.len() == 5,
                    ok ==> (forall|m: int| 0 <= m < j ==> s@[16 + m] == nl@[m]),
                    !ok ==> s@.skip(16) != nl@,
                decreases 5 - j,
            {
                if ok && s.get_char(16 + j) != nl.get_char(j) {
                    proof {
                        assert(s@.skip(16)[j as int] != nl@[j as int]);
                    }
                    ok = false;
                }
                j = j + 1;
            }
            if ok {
                proof {
                    assert(s@.skip(16) =~= "null}"@);
                }
                return Ok(AppConfig { database_path: None });
            }
            proof {
                assert(body != "null}"@);
                assert(n >= 17 && body.len() > 0 && body[0] != '"');
            }
            return Err(RepoError::ConfigCorrupt);
        }
        proof {
            assert(body.len() != 5);
            assert(body != "null}"@);
            if n >= 17 {
                assert(body[0] != '"');
            }
        }
        Err(RepoError::ConfigCorrupt)
    }
}

/// What stands after the last path separator: the file name, empty when the
/// path ends with a separator or is empty.
pub open spec fn spec_file_name(s: Seq<char>) -> Seq<char>
    decreases s.len(),
{
    if s.len() == 0 {
        Seq::<char>::empty()
    } else if s.last() == '/' {
        Seq::<char>::empty()
    } else {
        spec_file_name(s.drop_last()).push(s.last())
    }
}

/// The suffix after a position with a separator just before it and none after
/// it is the file name.
proof fn lemma_file_name_suffix(s: Seq<char>, j: int)
    requires
        0 <= j <= s.len(),
        j == 0 || s[j - 1] == '/',
        forall|m: int| j <= m < s.len() ==> s[m] != '/',
    ensures
        spec_file_name(s) == s.skip(j),
    decreases s.len(),
{
    if j == s.len() {
        if s.len() == 0 {
            assert(s.skip(j) =~= Seq::<char>::empty());
        } else {
            assert(s.last() == '/');
            assert(s.skip(j) =~= Seq::<char>::empty());
        }
    } else {
        assert(s.last() != '/');
        lemma_file_name_suffix(s.drop_last(), j);
        assert(s.drop_last().skip(j).push(s.last()) =~= s.skip(j));
    }
}

/// The file name a path points at: everything after the last separator.
pub fn file_name_of(path: &str) -> (r: String)
    ensures
        r@ == spec_file_name(path@),
{
    let n = path.unicode_len();
    let mut j: usize = n;
    while j > 0 && path.get_char(j - 1) != '/'
        invariant
            j <= n,
            n == path@.len(),
            forall|m: int| j <= m < n ==> path@[m] != '/',
        decreases j,
    {
        j = j - 1;
    }
    proof {
        lemma_file_name_suffix(path@, j as int);
    }
    let r = path.substring_char(j, n).to_owned();
    proof {
        assert(r@ =~= path@.skip(j as int));
    }
    r
}

} // verus!
