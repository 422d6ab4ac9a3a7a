//! The `systemd --user` unit that runs the forwarder as a service.

use vstd::prelude::*;

use crate::config::{join, join_path};
use crate::text::{chars_of, string_from_chars};

verus! {

/// Characters that `shell_escape` leaves unquoted.
pub open spec fn is_plain_char(c: char) -> bool {
    ||| ('a' <= c && c <= 'z')
    ||| ('A' <= c && c <= 'Z')
    ||| ('0' <= c && c <= '9')
    ||| c == '-'
    ||| c == '_'
    ||| c == '.'
    ||| c == '/'
    ||| c == ':'
}

/// What one character becomes inside double quotes.
pub open spec fn quoted_char(c: char) -> Seq<char> {
    if c == '"' {
        seq!['\\', '"']
    } else {
        seq![c]
    }
}

/// `s` with every double quote preceded by a backslash.
pub open spec fn escape_quotes(s: Seq<char>) -> Seq<char>
    decreases s.len(),
{
    if s.len() == 0 {
        Seq::empty()
    } else {
        escape_quotes(s.drop_last()) + quoted_char(s.last())
    }
}

/// A value as written into the unit file: as is when every character is plain,
/// else in double quotes with inner quotes escaped.
pub open spec fn shell_escaped(v: Seq<char>) -> Seq<char> {
    if forall|i: int| 0 <= i < v.len() ==> is_plain_char(#[trigger] v[i]) {
        v
    } else {
        seq!['"'] + escape_quotes(v) + seq!['"']
    }
}

fn plain_char(c: char) -> (b: bool)
    ensures
        b == is_plain_char(c),
{
    ('a' <= c && c <= 'z') || ('A' <= c && c <= 'Z') || ('0' <= c && c <= '9') || c == '-' || c
        == '_' || c == '.' || c == '/' || c == ':'
}

/// Quotes a value for the `ExecStart=` line where it holds more than plain characters.
pub fn shell_escape(value: &str) -> (r: String)
    ensures
        r@ == shell_escaped(value@),
{
    let v = chars_of(value);
    let mut plain = true;
    let mut i: usize = 0;
    while i < v.len()
        invariant
            i <= v@.len(),
            plain == forall|k: int| 0 <= k < i ==> is_plain_char(#[trigger] v@[k]),
        decreases v.len() - i,
    {
        if !plain_char(v[i]) {
            plain = false;
        }
        i = i + 1;
    }
    if plain {
        return String::from_str(value);
    }
    let mut out: Vec<char> = Vec::new();
    out.push('"');
    let mut j: usize = 0;
    while j < v.len()
        invariant
            j <= v@.len(),
            out@ == seq!['"'] + escape_quotes(v@.take(j as int)),
        decreases v.len() - j,
    {
        let c = v[j];
        assert(v@.take(j + 1).drop_last() =~= v@.take(j as int));
        if c == '"' {
            out.push('\\');
            out.push('"');
        } else {
            out.push(c);
        }
        j = j + 1;
        assert(out@ =~= seq!['"'] + escape_quotes(v@.take(j as int)));
    }
    out.push('"');
    assert(v@.take(v@.len() as int) =~= v@);
    assert(out@ =~= seq!['"'] + escape_quotes(v@) + seq!['"']);
    string_from_chars(&out)
}

proof fn lemma_escape_quotes_len(s: Seq<char>)
    ensures
        escape_quotes(s).len() >= s.len(),
    decreases s.len(),
{
    if s.len() > 0 {
        lemma_escape_quotes_len(s.drop_last());
    }
}

proof fn lemma_escape_quotes_injective(a: Seq<char>, b: Seq<char>)
    requires
        escape_quotes(a) == escape_quotes(b),
    ensures
        a == b,
    decreases a.len() + b.len(),
{
    lemma_escape_quotes_len(a);
    lemma_escape_quotes_len(b);
    if a.len() == 0 || b.len() == 0 {
        if a.len() > 0 {
            lemma_escape_quotes_len(a.drop_last());
        }
        if b.len() > 0 {
            lemma_escape_quotes_len(b.drop_last());
        }
        assert(a =~= b);
    } else {
        let ea = escape_quotes(a);
        let pa = quoted_char(a.last());
        let pb = quoted_char(b.last());
        assert(ea.last() == pa.last());
        assert(ea.last() == pb.last());
        assert(a.last() == b.last());
        assert(escape_quotes(a.drop_last()) =~= ea.subrange(0, ea.len() - pa.len()));
        assert(escape_quotes(b.drop_last()) =~= ea.subrange(0, ea.len() - pb.len()));
        lemma_escape_quotes_injective(a.drop_last(), b.drop_last());
        assert(a =~= a.drop_last().push(a.last()));
        assert(b =~= b.drop_last().push(b.last()));
    }
}

/// Distinct values are written as distinct text, so the unit file names exactly
/// the executable and configuration it was given.
pub proof fn shell_escape_injective(a: Seq<char>, b: Seq<char>)
    requires
        shell_escaped(a) == shell_escaped(b),
    ensures
        a == b,
{
    let pa = forall|i: int| 0 <= i < a.len() ==> is_plain_char(#[trigger] a[i]);
    let pb = forall|i: int| 0 <= i < b.len() ==> is_plain_char(#[trigger] b[i]);
    if pa && pb {
    } else if pa && !pb {
        let q = shell_escaped(b);
        assert(q[0] == '"');
        lemma_escape_quotes_len(b);
        assert(a.len() > 0 && a[0] == '"');
        assert(is_plain_char(a[0]));
    } else if !pa && pb {
        let q = shell_escaped(a);
        assert(q[0] == '"');
        lemma_escape_quotes_len(a);
        assert(b.len() > 0 && b[0] == '"');
        assert(is_plain_char(b[0]));
    } else {
        let qa = shell_escaped(a);
        let qb = shell_escaped(b);
        assert(escape_quotes(a) =~= qa.subrange(1, qa.len() - 1));
        assert(escape_quotes(b) =~= qb.subrange(1, qb.len() - 1));
        lemma_escape_quotes_injective(a, b);
    }
}

} // verus!

verus! {

/// The unit file, up to the executable.
pub const UNIT_HEAD: &'static str = "[Unit]\nDescription=eproxy local SNI forwarder\nAfter=network-online.target\nWants=network-online.target\n\n[Service]\nType=simple\nExecStart=";

/// The unit file, between the executable and the configuration path.
pub const UNIT_MIDDLE: &'static str = " run --config ";

/// The unit file, after the configuration path.
pub const UNIT_TAIL: &'static str = "\nRestart=always\nRestartSec=2\n\n[Install]\nWantedBy=default.target\n";

/// The unit file that runs `exe run --config config_path`, restarting it always.
pub fn systemd_unit(exe: &str, config_path: &str) -> (r: String)
    ensures
        r@ == UNIT_HEAD@ + shell_escaped(exe@) + UNIT_MIDDLE@ + shell_escaped(config_path@)
            + UNIT_TAIL@,
{
    let e = shell_escape(exe);
    let c = shell_escape(config_path);
    String::from_str(UNIT_HEAD).concat(e.as_str()).concat(UNIT_MIDDLE).concat(c.as_str()).concat(
        UNIT_TAIL,
    )
}

/// The `systemd --user` unit directory under a home directory.
pub open spec fn systemd_user_dir_spec(home: Seq<char>) -> Seq<char> {
    join_path(home, ".config/systemd/user"@)
}

/// The `systemd --user` unit directory under a home directory.
pub fn systemd_user_dir(home: &str) -> (r: String)
    ensures
        r@ == systemd_user_dir_spec(home@),
{
    join(home, ".config/systemd/user")
}

/// Where the unit file goes under a home directory.
pub fn service_path(home: &str) -> (r: String)
    ensures
        r@ == join_path(systemd_user_dir_spec(home@), "eproxy.service"@),
{
    join(systemd_user_dir(home).as_str(), "eproxy.service")
}

} // verus!

verus! {

/// Undoes `escape_quotes`: each backslash followed by a double quote becomes the
/// double quote. The two characters differ, so such pairs never overlap and reading
/// them from the end finds the same pairs as reading from the start.
pub open spec fn unescape_quotes(s: Seq<char>) -> Seq<char>
    decreases s.len(),
{
    if s.len() == 0 {
        Seq::empty()
    } else if s.len() >= 2 && s.last() == '"' && s[s.len() - 2] == '\\' {
        unescape_quotes(s.subrange(0, s.len() - 2)).push('"')
    } else {
        unescape_quotes(s.drop_last()).push(s.last())
    }
}

/// Reads a value back from the unit file: text that does not start with a double
/// quote is the value itself; otherwise the outer quotes are dropped and escaped
/// quotes restored.
pub open spec fn unquote(s: Seq<char>) -> Seq<char> {
    if s.len() >= 2 && s[0] == '"' {
        unescape_quotes(s.subrange(1, s.len() - 1))
    } else {
        s
    }
}

proof fn lemma_unescape_escape(v: Seq<char>)
    ensures
        unescape_quotes(escape_quotes(v)) == v,
    decreases v.len(),
{
    if v.len() > 0 {
        lemma_unescape_escape(v.drop_last());
        lemma_escape_quotes_len(v.drop_last());
        let e = escape_quotes(v);
        let p = escape_quotes(v.drop_last());
        if v.last() == '"' {
            assert(e.subrange(0, e.len() - 2) =~= p);
        } else {
            assert(e.drop_last() =~= p);
        }
        assert(v =~= v.drop_last().push(v.last()));
    } else {
        assert(escape_quotes(v) =~= Seq::<char>::empty());
        assert(v =~= Seq::<char>::empty());
    }
}

/// Reading a written value back gives the value; a value with a non-plain
/// character (such as whitespace or a double quote) is written in double quotes.
pub proof fn shell_escape_round_trip(v: Seq<char>)
    ensures
        unquote(shell_escaped(v)) == v,
        (exists|i: int| 0 <= i < v.len() && !is_plain_char(#[trigger] v[i])) ==> {
            let q = shell_escaped(v);
            &&& q.len() >= 2
            &&& q[0] == '"'
            &&& q.last() == '"'
        },
{
    let q = shell_escaped(v);
    if forall|i: int| 0 <= i < v.len() ==> is_plain_char(#[trigger] v[i]) {
        if v.len() >= 2 {
            assert(is_plain_char(v[0]));
        }
    } else {
        lemma_escape_quotes_len(v);
        assert(q.subrange(1, q.len() - 1) =~= escape_quotes(v));
        lemma_unescape_escape(v);
    }
}

} // verus!
