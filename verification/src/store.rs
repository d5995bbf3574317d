//! The configuration store: a verified serializer and parser for the flat
//! key-value text form in which a configuration is persisted.
//!
//! The on-disk shape is one `key = value` line per field, with quoted
//! strings (backslash-escaped quotes and backslashes) and bracketed,
//! comma-separated name lists. Reading the file and writing it back is the
//! caller's concern; this module turns a configuration into text and text
//! back into a configuration, and proves that the two compose to the
//! identity.
use vstd::prelude::*;
use vstd::string::StrSliceExecFns;
use vstd::string::StringExecFns;

use crate::compiler::{ConfigView, Configuration};

verus! {

/// Failure of the configuration store.
#[derive(Clone, Copy, Debug, PartialEq, Eq, Structural)]
pub enum StoreError {
    /// The file could not be read or written.
    IoFailure,
    /// The file's content does not parse as a configuration.
    Corrupt,
}

/// The name of the per-user dotfile, relative to the home directory, in
/// which the configuration is persisted.
pub fn config_file_name() -> (s: &'static str)
    ensures
        s@ == ".devstrap"@,
{
    ".devstrap"
}

/// Relies on std's `String::push`: appends the character to the string.
pub assume_specification[ String::push ](s: &mut String, ch: char)
    ensures
        final(s)@ == old(s)@.push(ch),
;

/// How one character is written inside a quoted string: quotes and
/// backslashes gain a leading backslash, everything else stands as is.
pub open spec fn spec_escape_char(c: char) -> Seq<char> {
    if c == '"' || c == '\\' {
        seq!['\\', c]
    } else {
        seq![c]
    }
}

/// The escaped body of a quoted string.
pub open spec fn spec_escape(s: Seq<char>) -> Seq<char>
    decreases s.len(),
{
    if s.len() == 0 {
        Seq::empty()
    } else {
        spec_escape_char(s[0]) + spec_escape(s.drop_first())
    }
}

/// Escaping a string one character longer appends that character's escape.
pub proof fn lemma_escape_snoc(s: Seq<char>, c: char)
    ensures
        spec_escape(s.push(c)) == spec_escape(s) + spec_escape_char(c),
    decreases s.len(),
{
    let sp = s.push(c);
    if s.len() == 0 {
        assert(sp[0] == c);
        assert(sp.drop_first() =~= Seq::<char>::empty());
        assert(spec_escape(sp) == spec_escape_char(c) + spec_escape(sp.drop_first()));
        assert(spec_escape(Seq::<char>::empty()) == Seq::<char>::empty());
        assert(spec_escape(sp) =~= spec_escape(s) + spec_escape_char(c));
    } else {
        lemma_escape_snoc(s.drop_first(), c);
        assert(sp[0] == s[0]);
        assert(sp.drop_first() =~= s.drop_first().push(c));
        assert(spec_escape(sp) == spec_escape_char(s[0]) + spec_escape(sp.drop_first()));
        assert(spec_escape(s) == spec_escape_char(s[0]) + spec_escape(s.drop_first()));
        assert(spec_escape(sp) =~= spec_escape(s) + spec_escape_char(c));
    }
}

/// A name as it stands in a serialized list: quoted and escaped.
pub open spec fn spec_quoted(x: Seq<char>) -> Seq<char> {
    seq!['"'] + spec_escape(x) + seq!['"']
}

/// A serialized name list, without its surrounding brackets.
pub open spec fn spec_items(xs: Seq<Seq<char>>) -> Seq<char>
    decreases xs.len(),
{
    if xs.len() == 0 {
        Seq::empty()
    } else {
        spec_quoted(xs[0]) + spec_items_rest(xs.drop_first())
    }
}

/// The tail of a serialized name list: each further name follows a
/// comma-space separator.
pub open spec fn spec_items_rest(xs: Seq<Seq<char>>) -> Seq<char>
    decreases xs.len(),
{
    if xs.len() == 0 {
        Seq::empty()
    } else {
        seq![',', ' '] + spec_quoted(xs[0]) + spec_items_rest(xs.drop_first())
    }
}

proof fn lemma_items_rest_snoc(xs: Seq<Seq<char>>, x: Seq<char>)
    ensures
        spec_items_rest(xs.push(x)) == spec_items_rest(xs) + (seq![',', ' '] + spec_quoted(x)),
    decreases xs.len(),
{
    let xp = xs.push(x);
    if xs.len() == 0 {
        assert(xp[0] == x);
        assert(xp.drop_first() =~= Seq::<Seq<char>>::empty());
        assert(spec_items_rest(xp) == seq![',', ' '] + spec_quoted(x) + spec_items_rest(
            xp.drop_first(),
        ));
        assert(spec_items_rest(Seq::<Seq<char>>::empty()) == Seq::<char>::empty());
        assert(spec_items_rest(xp) =~= spec_items_rest(xs) + (seq![',', ' '] + spec_quoted(x)));
    } else {
        lemma_items_rest_snoc(xs.drop_first(), x);
        assert(xp[0] == xs[0]);
        assert(xp.drop_first() =~= xs.drop_first().push(x));
        assert(spec_items_rest(xp) == seq![',', ' '] + spec_quoted(xs[0]) + spec_items_rest(
            xp.drop_first(),
        ));
        assert(spec_items_rest(xs) == seq![',', ' '] + spec_quoted(xs[0]) + spec_items_rest(
            xs.drop_first(),
        ));
        assert(spec_items_rest(xp) =~= spec_items_rest(xs) + (seq![',', ' '] + spec_quoted(x)));
    }
}

/// Serializing a list one name longer appends that name, with a separator
/// unless it is the first.
pub proof fn lemma_items_snoc(xs: Seq<Seq<char>>, x: Seq<char>)
    ensures
        xs.len() == 0 ==> spec_items(xs.push(x)) == spec_quoted(x),
        xs.len() > 0 ==> spec_items(xs.push(x)) == spec_items(xs) + (seq![',', ' ']
            + spec_quoted(x)),
{
    let xp = xs.push(x);
    if xs.len() == 0 {
        assert(xp[0] == x);
        assert(xp.drop_first() =~= Seq::<Seq<char>>::empty());
        assert(spec_items(xp) == spec_quoted(x) + spec_items_rest(xp.drop_first()));
        assert(spec_items_rest(Seq::<Seq<char>>::empty()) == Seq::<char>::empty());
        assert(spec_items(xp) =~= spec_quoted(x));
    } else {
        lemma_items_rest_snoc(xs.drop_first(), x);
        assert(xp[0] == xs[0]);
        assert(xp.drop_first() =~= xs.drop_first().push(x));
        assert(spec_items(xp) == spec_quoted(xs[0]) + spec_items_rest(xp.drop_first()));
        assert(spec_items(xs) == spec_quoted(xs[0]) + spec_items_rest(xs.drop_first()));
        assert(spec_items(xp) =~= spec_items(xs) + (seq![',', ' '] + spec_quoted(x)));
    }
}

/// The serialized form of the database flag.
pub open spec fn spec_bool_text(b: bool) -> Seq<char> {
    if b {
        "true"@
    } else {
        "false"@
    }
}

/// The full serialized form of a configuration: one `key = value` line per
/// field, in a fixed order, ending in a newline.
pub open spec fn spec_save(c: ConfigView) -> Seq<char> {
    "repos_dir = \""@ + spec_escape(c.repos_dir) + seq!['"'] + "\nrepos = ["@ + spec_items(c.repos)
        + seq![']'] + "\nprofiles = ["@ + spec_items(c.profiles) + seq![']']
        + "\nsetup_database = "@ + spec_bool_text(c.setup_database) + "\nsu_password = \""@
        + spec_escape(c.su_password) + seq!['"'] + "\npassword = \""@ + spec_escape(c.password)
        + seq!['"'] + seq!['\n']
}

/// Append the escaped body of `s` to `out`.
fn push_escaped(out: &mut String, s: &str)
    ensures
        final(out)@ == old(out)@ + spec_escape(s@),
{
    let n = s.unicode_len();
    let mut i: usize = 0;
    while i < n
        invariant
            n == s@.len(),
            0 <= i <= n,
            out@ == old(out)@ + spec_escape(s@.take(i as int)),
        decreases n - i,
    {
        let c = s.get_char(i);
        proof {
            assert(s@.take(i + 1) =~= s@.take(i as int).push(c));
            lemma_escape_snoc(s@.take(i as int), c);
        }
        if c == '"' || c == '\\' {
            out.push('\\');
            out.push(c);
        } else {
            out.push(c);
        }
        proof {
            assert(out@ =~= old(out)@ + spec_escape(s@.take(i + 1)));
        }
        i += 1;
    }
    proof {
        assert(s@.take(n as int) =~= s@);
    }
}

/// Append the serialized name list (no brackets) to `out`.
fn push_items(out: &mut String, items: &Vec<String>)
    ensures
        final(out)@ == old(out)@ + spec_items(items.deep_view()),
{
    let ghost dv = items.deep_view();
    let mut j: usize = 0;
    proof {
        assert(dv.take(0) =~= Seq::<Seq<char>>::empty());
        assert(out@ =~= old(out)@ + spec_items(dv.take(0)));
    }
    while j < items.len()
        invariant
            dv == items.deep_view(),
            dv.len() == items@.len(),
            0 <= j <= items@.len(),
            out@ == old(out)@ + spec_items(dv.take(j as int)),
        decreases items@.len() - j,
    {
        proof {
            assert(dv[j as int] == items@[j as int]@);
            assert(dv.take(j + 1) =~= dv.take(j as int).push(dv[j as int]));
            lemma_items_snoc(dv.take(j as int), dv[j as int]);
        }
        if j > 0 {
            out.push(',');
            out.push(' ');
        }
        out.push('"');
        push_escaped(out, items[j].as_str());
        out.push('"');
        proof {
            assert(out@ =~= old(out)@ + spec_items(dv.take(j + 1)));
        }
        j += 1;
    }
    proof {
        assert(dv.take(items@.len() as int) =~= dv);
    }
}

/// Serialize a configuration to its persisted text form.
pub fn save(c: &Configuration) -> (out: String)
    ensures
        out@ == spec_save(c@),
{
    let mut out = String::new();
    out.append("repos_dir = \"");
    push_escaped(&mut out, c.repos_dir.as_str());
    out.push('"');
    out.append("\nrepos = [");
    push_items(&mut out, &c.repos);
    out.push(']');
    out.append("\nprofiles = [");
    push_items(&mut out, &c.profiles);
    out.push(']');
    out.append("\nsetup_database = ");
    if c.setup_database {
        out.append("true");
    } else {
        out.append("false");
    }
    out.append("\nsu_password = \"");
    push_escaped(&mut out, c.su_password.as_str());
    out.push('"');
    out.append("\npassword = \"");
    push_escaped(&mut out, c.password.as_str());
    out.push('"');
    out.push('\n');
    proof {
        assert(out@ =~= spec_save(c@));
    }
    out
}

/// Consume an exact literal prefix, returning the remainder.
pub open spec fn spec_take_lit(s: Seq<char>, lit: Seq<char>) -> Option<Seq<char>>
    decreases lit.len(),
{
    if lit.len() == 0 {
        Some(s)
    } else if s.len() == 0 {
        None
    } else if s[0] == lit[0] {
        spec_take_lit(s.drop_first(), lit.drop_first())
    } else {
        None
    }
}

/// Consume a quoted string after its opening quote: the unescaped content
/// up to the closing quote, and the remainder after it.
pub open spec fn spec_take_qstring(s: Seq<char>) -> Option<(Seq<char>, Seq<char>)>
    decreases s.len(),
{
    if s.len() == 0 {
        None
    } else if s[0] == '"' {
        Some((Seq::empty(), s.drop_first()))
    } else if s[0] == '\\' {
        if s.len() >= 2 && (s[1] == '"' || s[1] == '\\') {
            match spec_take_qstring(s.skip(2)) {
                None => None,
                Some((t, r)) => Some((seq![s[1]] + t, r)),
            }
        } else {
            None
        }
    } else {
        match spec_take_qstring(s.drop_first()) {
            None => None,
            Some((t, r)) => Some((seq![s[0]] + t, r)),
        }
    }
}

/// A quoted string consumes at least its closing quote.
pub proof fn lemma_qstring_shrinks(s: Seq<char>)
    ensures
        spec_take_qstring(s) is Some ==> (spec_take_qstring(s)->Some_0).1.len() < s.len(),
    decreases s.len(),
{
    if s.len() == 0 {
    } else if s[0] == '"' {
    } else if s[0] == '\\' {
        if s.len() >= 2 && (s[1] == '"' || s[1] == '\\') {
            lemma_qstring_shrinks(s.skip(2));
        }
    } else {
        lemma_qstring_shrinks(s.drop_first());
    }
}

/// Consume the tail of a bracketed name list: either the closing bracket,
/// or a comma-space separator, a quoted name, and the rest.
pub open spec fn spec_take_items_rest(s: Seq<char>) -> Option<(Seq<Seq<char>>, Seq<char>)>
    decreases s.len(),
    via spec_take_items_rest_dec
{
    if s.len() == 0 {
        None
    } else if s[0] == ']' {
        Some((Seq::empty(), s.drop_first()))
    } else if s.len() >= 3 && s[0] == ',' && s[1] == ' ' && s[2] == '"' {
        match spec_take_qstring(s.skip(3)) {
            None => None,
            Some((e, r)) => match spec_take_items_rest(r) {
                None => None,
                Some((es, r2)) => Some((seq![e] + es, r2)),
            },
        }
    } else {
        None
    }
}

#[via_fn]
proof fn spec_take_items_rest_dec(s: Seq<char>) {
    if s.len() >= 3 && s[0] == ',' && s[1] == ' ' && s[2] == '"' {
        lemma_qstring_shrinks(s.skip(3));
    }
}

/// Consume a bracketed name list after its opening bracket: either the
/// closing bracket at once, or a first quoted name and the list's tail.
pub open spec fn spec_take_items(s: Seq<char>) -> Option<(Seq<Seq<char>>, Seq<char>)> {
    if s.len() == 0 {
        None
    } else if s[0] == ']' {
        Some((Seq::empty(), s.drop_first()))
    } else if s[0] == '"' {
        match spec_take_qstring(s.drop_first()) {
            None => None,
            Some((e, r)) => match spec_take_items_rest(r) {
                None => None,
                Some((es, r2)) => Some((seq![e] + es, r2)),
            },
        }
    } else {
        None
    }
}

/// Consume the database flag.
pub open spec fn spec_take_bool(s: Seq<char>) -> Option<(bool, Seq<char>)> {
    match spec_take_lit(s, "true"@) {
        Some(r) => Some((true, r)),
        None => match spec_take_lit(s, "false"@) {
            Some(r) => Some((false, r)),
            None => None,
        },
    }
}

/// Parse the persisted text form of a configuration. Any deviation from
/// the serialized shape, including trailing content, parses to nothing.
pub open spec fn spec_parse(s: Seq<char>) -> Option<ConfigView> {
    match spec_take_lit(s, "repos_dir = \""@) {
        None => None,
        Some(s1) => match spec_take_qstring(s1) {
            None => None,
            Some((repos_dir, s2)) => match spec_take_lit(s2, "\nrepos = ["@) {
                None => None,
                Some(s3) => match spec_take_items(s3) {
                    None => None,
                    Some((repos, s4)) => match spec_take_lit(s4, "\nprofiles = ["@) {
                        None => None,
                        Some(s5) => match spec_take_items(s5) {
                            None => None,
                            Some((profiles, s6)) => match spec_take_lit(
                                s6,
                                "\nsetup_database = "@,
                            ) {
                                None => None,
                                Some(s7) => match spec_take_bool(s7) {
                                    None => None,
                                    Some((setup_database, s8)) => match spec_take_lit(
                                        s8,
                                        "\nsu_password = \""@,
                                    ) {
                                        None => None,
                                        Some(s9) => match spec_take_qstring(s9) {
                                            None => None,
                                            Some((su_password, s10)) => match spec_take_lit(
                                                s10,
                                                "\npassword = \""@,
                                            ) {
                                                None => None,
                                                Some(s11) => match spec_take_qstring(s11) {
                                                    None => None,
                                                    Some((password, s12)) => if s12 == seq!['\n'] {
                                                        Some(
                                                            ConfigView {
                                                                repos_dir,
                                                                repos,
                                                                profiles,
                                                                setup_database,
                                                                su_password,
                                                                password,
                                                            },
                                                        )
                                                    } else {
                                                        None
                                                    },
                                                },
                                            },
                                        },
                                    },
                                },
                            },
                        },
                    },
                },
            },
        },
    }
}

/// Consume an exact literal prefix of `s`.
fn take_lit<'a>(s: &'a str, lit: &str) -> (r: Option<&'a str>)
    ensures
        match r {
            Some(rest) => spec_take_lit(s@, lit@) == Some(rest@),
            None => spec_take_lit(s@, lit@) is None,
        },
    decreases lit@.len(),
{
    let lit_len = lit.unicode_len();
    if lit_len == 0 {
        Some(s)
    } else {
        let n = s.unicode_len();
        if n == 0 {
            None
        } else if s.get_char(0) == lit.get_char(0) {
            let s2 = s.substring_char(1, n);
            let lit2 = lit.substring_char(1, lit_len);
            proof {
                assert(s2@ =~= s@.drop_first());
                assert(lit2@ =~= lit@.drop_first());
            }
            take_lit(s2, lit2)
        } else {
            None
        }
    }
}

/// Consume a quoted string after its opening quote, unescaping its body.
fn take_qstring<'a>(s: &'a str) -> (r: Option<(String, &'a str)>)
    ensures
        match r {
            Some(p) => spec_take_qstring(s@) == Some((p.0@, p.1@)),
            None => spec_take_qstring(s@) is None,
        },
    decreases s@.len(),
{
    let n = s.unicode_len();
    if n == 0 {
        return None;
    }
    let c = s.get_char(0);
    if c == '"' {
        let rest = s.substring_char(1, n);
        let out = String::new();
        proof {
            assert(rest@ =~= s@.drop_first());
        }
        Some((out, rest))
    } else if c == '\\' {
        if n >= 2 {
            let c2 = s.get_char(1);
            if c2 == '"' || c2 == '\\' {
                let tail = s.substring_char(2, n);
                proof {
                    assert(tail@ =~= s@.skip(2));
                }
                match take_qstring(tail) {
                    None => None,
                    Some((t, rest)) => {
                        let mut out = String::new();
                        out.push(c2);
                        out.append(t.as_str());
                        proof {
                            assert(out@ =~= seq![s@[1]] + t@);
                        }
                        Some((out, rest))
                    },
                }
            } else {
                None
            }
        } else {
            None
        }
    } else {
        let tail = s.substring_char(1, n);
        proof {
            assert(tail@ =~= s@.drop_first());
        }
        match take_qstring(tail) {
            None => None,
            Some((t, rest)) => {
                let mut out = String::new();
                out.push(c);
                out.append(t.as_str());
                proof {
                    assert(out@ =~= seq![s@[0]] + t@);
                }
                Some((out, rest))
            },
        }
    }
}

/// Consume the tail of a bracketed name list.
fn take_items_rest<'a>(s: &'a str) -> (r: Option<(Vec<String>, &'a str)>)
    ensures
        match r {
            Some(p) => spec_take_items_rest(s@) == Some((p.0.deep_view(), p.1@)),
            None => spec_take_items_rest(s@) is None,
        },
    decreases s@.len(),
{
    let n = s.unicode_len();
    if n == 0 {
        return None;
    }
    let c = s.get_char(0);
    if c == ']' {
        let rest = s.substring_char(1, n);
        let v: Vec<String> = Vec::new();
        proof {
            assert(rest@ =~= s@.drop_first());
            assert(v.deep_view() =~= Seq::<Seq<char>>::empty());
        }
        Some((v, rest))
    } else if n >= 3 && c == ',' && s.get_char(1) == ' ' && s.get_char(2) == '"' {
        let tail = s.substring_char(3, n);
        proof {
            assert(tail@ =~= s@.skip(3));
        }
        match take_qstring(tail) {
            None => None,
            Some((e, r1)) => {
                proof {
                    lemma_qstring_shrinks(tail@);
                }
                match take_items_rest(r1) {
                    None => None,
                    Some((es, r2)) => {
                        let ghost es_dv = es.deep_view();
                        let mut v = es;
                        v.insert(0, e);
                        proof {
                            assert(v.deep_view() =~= seq![e@] + es_dv);
                        }
                        Some((v, r2))
                    },
                }
            },
        }
    } else {
        None
    }
}

/// Consume a bracketed name list after its opening bracket.
fn take_items<'a>(s: &'a str) -> (r: Option<(Vec<String>, &'a str)>)
    ensures
        match r {
            Some(p) => spec_take_items(s@) == Some((p.0.deep_view(), p.1@)),
            None => spec_take_items(s@) is None,
        },
{
    let n = s.unicode_len();
    if n == 0 {
        return None;
    }
    let c = s.get_char(0);
    if c == ']' {
        let rest = s.substring_char(1, n);
        let v: Vec<String> = Vec::new();
        proof {
            assert(rest@ =~= s@.drop_first());
            assert(v.deep_view() =~= Seq::<Seq<char>>::empty());
        }
        Some((v, rest))
    } else if c == '"' {
        let tail = s.substring_char(1, n);
        proof {
            assert(tail@ =~= s@.drop_first());
        }
        match take_qstring(tail) {
            None => None,
            Some((e, r1)) => match take_items_rest(r1) {
                None => None,
                Some((es, r2)) => {
                    let ghost es_dv = es.deep_view();
                    let mut v = es;
                    v.insert(0, e);
                    proof {
                        assert(v.deep_view() =~= seq![e@] + es_dv);
                    }
                    Some((v, r2))
                },
            },
        }
    } else {
        None
    }
}

/// Consume the database flag.
fn take_bool<'a>(s: &'a str) -> (r: Option<(bool, &'a str)>)
    ensures
        match r {
            Some(p) => spec_take_bool(s@) == Some((p.0, p.1@)),
            None => spec_take_bool(s@) is None,
        },
{
    match take_lit(s, "true") {
        Some(rest) => Some((true, rest)),
        None => match take_lit(s, "false") {
            Some(rest) => Some((false, rest)),
            None => None,
        },
    }
}

/// Parse the persisted text form back into a configuration.
///
/// Succeeds exactly on the strings that [`spec_parse`] accepts; anything
/// malformed is surfaced as [`StoreError::Corrupt`], never defaulted.
pub fn load(s: &str) -> (r: Result<Configuration, StoreError>)
    ensures
        r is Ok <==> spec_parse(s@) is Some,
        r is Ok ==> spec_parse(s@) == Some((r->Ok_0)@),
        r is Err ==> r->Err_0 == StoreError::Corrupt,
{
    let s1 = match take_lit(s, "repos_dir = \"") {
        Some(x) => x,
        None => {
            return Err(StoreError::Corrupt);
        },
    };
    let (repos_dir, s2) = match take_qstring(s1) {
        Some(x) => x,
        None => {
            return Err(StoreError::Corrupt);
        },
    };
    let s3 = match take_lit(s2, "\nrepos = [") {
        Some(x) => x,
        None => {
            return Err(StoreError::Corrupt);
        },
    };
    let (repos, s4) = match take_items(s3) {
        Some(x) => x,
        None => {
            return Err(StoreError::Corrupt);
        },
    };
    let s5 = match take_lit(s4, "\nprofiles = [") {
        Some(x) => x,
        None => {
            return Err(StoreError::Corrupt);
        },
    };
    let (profiles, s6) = match take_items(s5) {
        Some(x) => x,
        None => {
            return Err(StoreError::Corrupt);
        },
    };
    let s7 = match take_lit(s6, "\nsetup_database = ") {
        Some(x) => x,
        None => {
            return Err(StoreError::Corrupt);
        },
    };
    let (setup_database, s8) = match take_bool(s7) {
        Some(x) => x,
        None => {
            return Err(StoreError::Corrupt);
        },
    };
    let s9 = match take_lit(s8, "\nsu_password = \"") {
        Some(x) => x,
        None => {
            return Err(StoreError::Corrupt);
        },
    };
    let (su_password, s10) = match take_qstring(s9) {
        Some(x) => x,
        None => {
            return Err(StoreError::Corrupt);
        },
    };
    let s11 = match take_lit(s10, "\npassword = \"") {
        Some(x) => x,
        None => {
            return Err(StoreError::Corrupt);
        },
    };
    let (password, s12) = match take_qstring(s11) {
        Some(x) => x,
        None => {
            return Err(StoreError::Corrupt);
        },
    };
    if s12.unicode_len() == 1 && s12.get_char(0) == '\n' {
        proof {
            assert(s12@ =~= seq!['\n']);
        }
        Ok(Configuration { repos_dir, repos, profiles, setup_database, su_password, password })
    } else {
        proof {
            if s12@ == seq!['\n'] {
                assert(s12@.len() == 1);
                assert(s12@[0] == '\n');
            }
        }
        Err(StoreError::Corrupt)
    }
}

/// A literal prefix is always consumed, leaving exactly the rest.
pub proof fn lemma_take_lit_prefix(lit: Seq<char>, rest: Seq<char>)
    ensures
        spec_take_lit(lit + rest, lit) == Some(rest),
    decreases lit.len(),
{
    let s = lit + rest;
    if lit.len() == 0 {
        assert(s =~= rest);
    } else {
        assert(s[0] == lit[0]);
        assert(s.drop_first() =~= lit.drop_first() + rest);
        lemma_take_lit_prefix(lit.drop_first(), rest);
    }
}

/// Parsing an escaped, quote-terminated string recovers the string.
pub proof fn lemma_qstring_round(x: Seq<char>, rest: Seq<char>)
    ensures
        spec_take_qstring(spec_escape(x) + seq!['"'] + rest) == Some((x, rest)),
    decreases x.len(),
{
    let s = spec_escape(x) + seq!['"'] + rest;
    if x.len() == 0 {
        assert(spec_escape(x) == Seq::<char>::empty());
        assert(s[0] == '"');
        assert(s.drop_first() =~= rest);
        assert(x =~= Seq::<char>::empty());
    } else {
        let x0 = x[0];
        let xr = x.drop_first();
        assert(spec_escape(x) == spec_escape_char(x0) + spec_escape(xr));
        lemma_qstring_round(xr, rest);
        if x0 == '"' || x0 == '\\' {
            assert(spec_escape_char(x0) == seq!['\\', x0]);
            assert(s[0] == '\\');
            assert(s.len() >= 2);
            assert(s[1] == x0);
            assert(s.skip(2) =~= spec_escape(xr) + seq!['"'] + rest);
            assert(seq![s[1]] + xr =~= x);
            assert(spec_take_qstring(s) == Some((x, rest)));
        } else {
            assert(spec_escape_char(x0) == seq![x0]);
            assert(s[0] == x0);
            assert(s.drop_first() =~= spec_escape(xr) + seq!['"'] + rest);
            assert(seq![s[0]] + xr =~= x);
            assert(spec_take_qstring(s) == Some((x, rest)));
        }
    }
}

/// Parsing a serialized list tail up to its closing bracket recovers the
/// names.
proof fn lemma_items_rest_round(ys: Seq<Seq<char>>, rest: Seq<char>)
    ensures
        spec_take_items_rest(spec_items_rest(ys) + seq![']'] + rest) == Some((ys, rest)),
    decreases ys.len(),
{
    let s = spec_items_rest(ys) + seq![']'] + rest;
    if ys.len() == 0 {
        assert(spec_items_rest(ys) == Seq::<char>::empty());
        assert(s[0] == ']');
        assert(s.drop_first() =~= rest);
        assert(ys =~= Seq::<Seq<char>>::empty());
    } else {
        let y0 = ys[0];
        let yr = ys.drop_first();
        assert(spec_items_rest(ys) == seq![',', ' '] + spec_quoted(y0) + spec_items_rest(yr));
        assert(s[0] == ',');
        assert(s[1] == ' ');
        assert(s[2] == '"');
        assert(s.len() >= 3);
        let inner = spec_items_rest(yr) + seq![']'] + rest;
        assert(s.skip(3) =~= spec_escape(y0) + seq!['"'] + inner);
        lemma_qstring_round(y0, inner);
        lemma_items_rest_round(yr, rest);
        assert(seq![y0] + yr =~= ys);
        assert(spec_take_items_rest(s) == Some((ys, rest)));
    }
}

/// Parsing a serialized, bracket-terminated name list recovers the names.
pub proof fn lemma_items_round(xs: Seq<Seq<char>>, rest: Seq<char>)
    ensures
        spec_take_items(spec_items(xs) + seq![']'] + rest) == Some((xs, rest)),
{
    let s = spec_items(xs) + seq![']'] + rest;
    if xs.len() == 0 {
        assert(spec_items(xs) == Seq::<char>::empty());
        assert(s[0] == ']');
        assert(s.drop_first() =~= rest);
        assert(xs =~= Seq::<Seq<char>>::empty());
    } else {
        let x0 = xs[0];
        let xr = xs.drop_first();
        assert(spec_items(xs) == spec_quoted(x0) + spec_items_rest(xr));
        assert(s[0] == '"');
        let inner = spec_items_rest(xr) + seq![']'] + rest;
        assert(s.drop_first() =~= spec_escape(x0) + seq!['"'] + inner);
        lemma_qstring_round(x0, inner);
        lemma_items_rest_round(xr, rest);
        assert(seq![x0] + xr =~= xs);
        assert(spec_take_items(s) == Some((xs, rest)));
    }
}

/// Parsing a serialized database flag recovers the flag.
pub proof fn lemma_bool_round(b: bool, rest: Seq<char>)
    ensures
        spec_take_bool(spec_bool_text(b) + rest) == Some((b, rest)),
{
    if b {
        lemma_take_lit_prefix("true"@, rest);
    } else {
        proof_of_false_not_true(rest);
        lemma_take_lit_prefix("false"@, rest);
    }
}

proof fn proof_of_false_not_true(rest: Seq<char>)
    ensures
        spec_take_lit("false"@ + rest, "true"@) is None,
{
    reveal_strlit("true");
    reveal_strlit("false");
    let s = "false"@ + rest;
    assert(s[0] == 'f');
    assert("true"@[0] == 't');
}

proof fn lemma_concat_assoc(a: Seq<char>, b: Seq<char>, c: Seq<char>)
    ensures
        (a + b) + c == a + (b + c),
{
    assert((a + b) + c =~= a + (b + c));
}

/// The round-trip law of the store: parsing the serialized form of any
/// configuration reproduces that configuration exactly, empty lists, empty
/// strings and the database flag included.
pub proof fn lemma_store_round_trip(c: ConfigView)
    ensures
        spec_parse(spec_save(c)) == Some(c),
{
    let a1 = "repos_dir = \""@;
    let a2 = spec_escape(c.repos_dir);
    let a3 = seq!['"'];
    let a4 = "\nrepos = ["@;
    let a5 = spec_items(c.repos);
    let a6 = seq![']'];
    let a7 = "\nprofiles = ["@;
    let a8 = spec_items(c.profiles);
    let a9 = seq![']'];
    let a10 = "\nsetup_database = "@;
    let a11 = spec_bool_text(c.setup_database);
    let a12 = "\nsu_password = \""@;
    let a13 = spec_escape(c.su_password);
    let a14 = seq!['"'];
    let a15 = "\npassword = \""@;
    let a16 = spec_escape(c.password);
    let a17 = seq!['"'];
    let a18 = seq!['\n'];
    let p2 = a1 + a2;
    let p3 = p2 + a3;
    let p4 = p3 + a4;
    let p5 = p4 + a5;
    let p6 = p5 + a6;
    let p7 = p6 + a7;
    let p8 = p7 + a8;
    let p9 = p8 + a9;
    let p10 = p9 + a10;
    let p11 = p10 + a11;
    let p12 = p11 + a12;
    let p13 = p12 + a13;
    let p14 = p13 + a14;
    let p15 = p14 + a15;
    let p16 = p15 + a16;
    let p17 = p16 + a17;
    let s18 = a18;
    let s17 = a17 + s18;
    let s16 = a16 + s17;
    let s15 = a15 + s16;
    let s14 = a14 + s15;
    let s13 = a13 + s14;
    let s12 = a12 + s13;
    let s11 = a11 + s12;
    let s10 = a10 + s11;
    let s9 = a9 + s10;
    let s8 = a8 + s9;
    let s7 = a7 + s8;
    let s6 = a6 + s7;
    let s5 = a5 + s6;
    let s4 = a4 + s5;
    let s3 = a3 + s4;
    let s2 = a2 + s3;
    assert(spec_save(c) == p17 + s18);
    lemma_concat_assoc(p15, a16, s17);
    lemma_concat_assoc(p14, a15, s16);
    lemma_concat_assoc(p13, a14, s15);
    lemma_concat_assoc(p12, a13, s14);
    lemma_concat_assoc(p11, a12, s13);
    lemma_concat_assoc(p10, a11, s12);
    lemma_concat_assoc(p9, a10, s11);
    lemma_concat_assoc(p8, a9, s10);
    lemma_concat_assoc(p7, a8, s9);
    lemma_concat_assoc(p6, a7, s8);
    lemma_concat_assoc(p5, a6, s7);
    lemma_concat_assoc(p4, a5, s6);
    lemma_concat_assoc(p3, a4, s5);
    lemma_concat_assoc(p2, a3, s4);
    lemma_concat_assoc(a1, a2, s3);
    lemma_concat_assoc(p16, a17, s18);
    assert(p17 + s18 == p16 + s17);
    assert(p16 + s17 == p15 + s16);
    assert(p15 + s16 == p14 + s15);
    assert(p14 + s15 == p13 + s14);
    assert(p13 + s14 == p12 + s13);
    assert(p12 + s13 == p11 + s12);
    assert(p11 + s12 == p10 + s11);
    assert(p10 + s11 == p9 + s10);
    assert(p9 + s10 == p8 + s9);
    assert(p8 + s9 == p7 + s8);
    assert(p7 + s8 == p6 + s7);
    assert(p6 + s7 == p5 + s6);
    assert(p5 + s6 == p4 + s5);
    assert(p4 + s5 == p3 + s4);
    assert(p3 + s4 == p2 + s3);
    assert(p2 + s3 == a1 + s2);
    assert(spec_save(c) == a1 + s2);
    lemma_take_lit_prefix(a1, s2);
    assert(spec_take_lit(spec_save(c), a1) == Some(s2));
    lemma_concat_assoc(a2, a3, s4);
    assert(s2 == spec_escape(c.repos_dir) + seq!['"'] + s4);
    lemma_qstring_round(c.repos_dir, s4);
    assert(spec_take_qstring(s2) == Some((c.repos_dir, s4)));
    lemma_take_lit_prefix(a4, s5);
    assert(spec_take_lit(s4, a4) == Some(s5));
    lemma_concat_assoc(a5, a6, s7);
    assert(s5 == spec_items(c.repos) + seq![']'] + s7);
    lemma_items_round(c.repos, s7);
    assert(spec_take_items(s5) == Some((c.repos, s7)));
    lemma_take_lit_prefix(a7, s8);
    assert(spec_take_lit(s7, a7) == Some(s8));
    lemma_concat_assoc(a8, a9, s10);
    assert(s8 == spec_items(c.profiles) + seq![']'] + s10);
    lemma_items_round(c.profiles, s10);
    assert(spec_take_items(s8) == Some((c.profiles, s10)));
    lemma_take_lit_prefix(a10, s11);
    assert(spec_take_lit(s10, a10) == Some(s11));
    lemma_bool_round(c.setup_database, s12);
    assert(spec_take_bool(s11) == Some((c.setup_database, s12)));
    lemma_take_lit_prefix(a12, s13);
    assert(spec_take_lit(s12, a12) == Some(s13));
    lemma_concat_assoc(a13, a14, s15);
    assert(s13 == spec_escape(c.su_password) + seq!['"'] + s15);
    lemma_qstring_round(c.su_password, s15);
    assert(spec_take_qstring(s13) == Some((c.su_password, s15)));
    lemma_take_lit_prefix(a15, s16);
    assert(spec_take_lit(s15, a15) == Some(s16));
    lemma_concat_assoc(a16, a17, s18);
    assert(s16 == spec_escape(c.password) + seq!['"'] + s18);
    lemma_qstring_round(c.password, s18);
    assert(spec_take_qstring(s16) == Some((c.password, s18)));
    assert(s18 == seq!['\n']);
    assert(spec_parse(spec_save(c)) == Some(
        ConfigView {
            repos_dir: c.repos_dir,
            repos: c.repos,
            profiles: c.profiles,
            setup_database: c.setup_database,
            su_password: c.su_password,
            password: c.password,
        },
    ));
    assert(ConfigView {
        repos_dir: c.repos_dir,
        repos: c.repos,
        profiles: c.profiles,
        setup_database: c.setup_database,
        su_password: c.su_password,
        password: c.password,
    } =~= c);
}

} // verus!

