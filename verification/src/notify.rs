//! Desktop notifications: the script that asks for one.

use vstd::prelude::*;
use vstd::string::*;

use crate::text;

verus! {

/// `s` with `to` in place of every `from`.
pub open spec fn replaced(s: Seq<char>, from: char, to: Seq<char>) -> Seq<char>
    decreases s.len(),
{
    if s.len() == 0 {
        Seq::empty()
    } else if s.last() == from {
        replaced(s.drop_last(), from, to) + to
    } else {
        replaced(s.drop_last(), from, to).push(s.last())
    }
}

fn replace(s: &str, from: char, to: &str) -> (r: String)
    ensures
        r@ == replaced(s@, from, to@),
{
    let cs = text::chars_of(s);
    let mut r = String::new();
    let mut i: usize = 0;
    assert(r@ =~= replaced(s@.take(0), from, to@));
    while i < cs.len()
        invariant
            cs@ == s@,
            i <= cs@.len(),
            r@ == replaced(s@.take(i as int), from, to@),
        decreases cs@.len() - i,
    {
        assert(s@.take(i + 1).drop_last() =~= s@.take(i as int));
        if cs[i] == from {
            r.append(to);
        } else {
            r.push(cs[i]);
        }
        i = i + 1;
    }
    assert(s@.take(i as int) =~= s@);
    r
}

/// `s` as it stands inside an AppleScript string.
pub open spec fn escaped(s: Seq<char>) -> Seq<char> {
    replaced(replaced(s, '\\', "\\\\"@), '"', "\\\""@)
}

/// Backslashes first, so that those before the quotes are not doubled.
pub fn escape(s: &str) -> (r: String)
    ensures
        r@ == escaped(s@),
{
    let slashes = replace(s, '\\', "\\\\");
    replace(slashes.as_str(), '"', "\\\"")
}

/// The script that shows a notification.
pub fn applescript(title: &str, body: &str) -> (r: String)
    ensures
        r@ == "display notification \""@ + escaped(body@) + "\" with title \""@ + escaped(title@)
            + "\""@,
{
    let b = escape(body);
    let t = escape(title);
    text::cat5("display notification \"", b.as_str(), "\" with title \"", t.as_str(), "\"")
}

/// The line that stands for a notification where they go to a log.
pub fn log_entry(title: &str, body: &str) -> (r: String)
    ensures
        r@ == title@ + "|"@ + body@,
{
    text::cat3(title, "|", body)
}

// ---- laws ----------------------------------------------------------------

/// The number of backslashes at the end of `s`.
pub open spec fn slashes_at_end(s: Seq<char>) -> nat
    decreases s.len(),
{
    if s.len() > 0 && s.last() == '\\' {
        slashes_at_end(s.drop_last()) + 1
    } else {
        0
    }
}

/// A text that a script string can hold: each of its quotes is escaped, and it
/// does not escape what follows it.
pub open spec fn stays_quoted(s: Seq<char>) -> bool
    decreases s.len(),
{
    if s.len() == 0 {
        true
    } else if s.last() == '"' {
        slashes_at_end(s.drop_last()) % 2 == 1 && stays_quoted(s.drop_last().drop_last())
    } else if s.last() == '\\' {
        s.len() >= 2 && s.drop_last().last() == '\\' && stays_quoted(s.drop_last().drop_last())
    } else {
        stays_quoted(s.drop_last())
    }
}

proof fn lemma_escaped_char(s: Seq<char>)
    requires
        s.len() > 0,
    ensures
        escaped(s) == escaped(s.drop_last()) + if s.last() == '\\' {
            seq!['\\', '\\']
        } else if s.last() == '"' {
            seq!['\\', '"']
        } else {
            seq![s.last()]
        },
{
    reveal_strlit("\\\\");
    reveal_strlit("\\\"");
    assert("\\\\"@ =~= seq!['\\', '\\']);
    assert("\\\""@ =~= seq!['\\', '"']);
    let d = s.drop_last();
    let a = replaced(d, '\\', "\\\\"@);
    if s.last() == '\\' {
        let whole = a + "\\\\"@;
        assert(whole.drop_last() =~= a.push('\\'));
        assert(a.push('\\').drop_last() =~= a);
        let q = "\\\""@;
        assert(whole.last() == '\\');
        assert(replaced(whole, '"', q) == replaced(a.push('\\'), '"', q).push('\\'));
        assert(replaced(a.push('\\'), '"', q) == replaced(a, '"', q).push('\\'));
        assert(replaced(whole, '"', q) =~= replaced(a, '"', q) + seq!['\\', '\\']);
    } else {
        let whole = a.push(s.last());
        assert(whole.drop_last() =~= a);
        assert(escaped(s) =~= escaped(d) + if s.last() == '"' {
            seq!['\\', '"']
        } else {
            seq![s.last()]
        });
    }
}

proof fn lemma_stays_quoted_even(s: Seq<char>)
    requires
        stays_quoted(s),
    ensures
        slashes_at_end(s) % 2 == 0,
    decreases s.len(),
{
    if s.len() > 0 && s.last() == '\\' {
        let t = s.drop_last();
        lemma_stays_quoted_even(t.drop_last());
        assert(slashes_at_end(t) == slashes_at_end(t.drop_last()) + 1);
    }
}

/// Whatever the text, an escaped one cannot end the string that it stands in.
pub proof fn escaping_keeps_the_string_closed(s: Seq<char>)
    ensures
        stays_quoted(escaped(s)),
    decreases s.len(),
{
    if s.len() > 0 {
        let d = s.drop_last();
        escaping_keeps_the_string_closed(d);
        lemma_escaped_char(s);
        let e = escaped(d);
        if s.last() == '\\' {
            let w = e + seq!['\\', '\\'];
            assert(w.drop_last() =~= e.push('\\'));
            assert(e.push('\\').drop_last() =~= e);
        } else if s.last() == '"' {
            let w = e + seq!['\\', '"'];
            lemma_stays_quoted_even(e);
            assert(w.drop_last() =~= e.push('\\'));
            assert(e.push('\\').drop_last() =~= e);
        } else {
            let w = e + seq![s.last()];
            assert(w.drop_last() =~= e);
        }
    }
}

/// Escaping puts a backslash before every quote and every backslash, and changes
/// nothing else.
pub proof fn escaping_loses_nothing(s: Seq<char>, c: char)
    ensures
        escaped(Seq::empty()).len() == 0,
        c == '"' || c == '\\' ==> escaped(s.push(c)) == escaped(s).push('\\').push(c),
        c != '"' && c != '\\' ==> escaped(s.push(c)) == escaped(s).push(c),
{
    let t = s.push(c);
    lemma_escaped_char(t);
    assert(t.drop_last() =~= s);
    assert(t.last() == c);
    assert(escaped(s) + seq!['\\', c] =~= escaped(s).push('\\').push(c));
    assert(escaped(s) + seq![c] =~= escaped(s).push(c));
}

} // verus!
